//! Naming a network and putting together the descriptors of a wallet.

use vstd::prelude::*;
use vstd::string::*;
use crate::error::{AppError, AppResult};
use crate::text::same_text;

verus! {

/// A bitcoin network.
#[derive(Clone, Copy, Debug, PartialEq, Eq, Structural)]
pub enum Network {
    Bitcoin,
    Testnet,
    Signet,
    Regtest,
}

/// The network that a name stands for, `None` for any other text.
pub open spec fn parse_network_spec(name: Seq<char>) -> Option<Network> {
    if name == "bitcoin"@ || name == "mainnet"@ {
        Some(Network::Bitcoin)
    } else if name == "testnet"@ || name == "testnet3"@ {
        Some(Network::Testnet)
    } else if name == "signet"@ {
        Some(Network::Signet)
    } else if name == "regtest"@ {
        Some(Network::Regtest)
    } else {
        None
    }
}

/// Reads a network from its name; a name that is none is refused, and the refusal
/// quotes it.
pub fn parse_network(network: &str) -> (result: AppResult<Network>)
    ensures
        match result {
            Ok(found) => parse_network_spec(network@) == Some(found),
            Err(e) => {
                &&& parse_network_spec(network@) is None
                &&& e matches AppError::BadRequest(text) && text@ == "Unknown network: "@
                    + network@
            },
        },
{
    if same_text(network, "bitcoin") || same_text(network, "mainnet") {
        Ok(Network::Bitcoin)
    } else if same_text(network, "testnet") || same_text(network, "testnet3") {
        Ok(Network::Testnet)
    } else if same_text(network, "signet") {
        Ok(Network::Signet)
    } else if same_text(network, "regtest") {
        Ok(Network::Regtest)
    } else {
        Err(AppError::BadRequest(String::from_str("Unknown network: ").concat(network)))
    }
}

/// Whether `pattern` stands in `text` at position `at`.
pub open spec fn occurs_at(text: Seq<char>, pattern: Seq<char>, at: int) -> bool {
    0 <= at && at + pattern.len() <= text.len() && text.subrange(at, at + pattern.len())
        == pattern
}

fn matches_at(text: &str, pattern: &str, at: usize, n: usize, m: usize) -> (yes: bool)
    requires
        n == text@.len(),
        m == pattern@.len(),
        at + m <= n,
    ensures
        yes == occurs_at(text@, pattern@, at as int),
{
    let mut k: usize = 0;
    while k < m
        invariant
            k <= m,
            n == text@.len(),
            m == pattern@.len(),
            at + m <= n,
            forall|j: int| 0 <= j < k ==> text@[at + j] == pattern@[j],
        decreases m - k,
    {
        if text.get_char(at + k) != pattern.get_char(k) {
            proof {
                assert(text@.subrange(at as int, at + m)[k as int] == text@[at + k]);
            }
            return false;
        }
        k += 1;
    }
    proof {
        assert(text@.subrange(at as int, at + m) =~= pattern@);
    }
    true
}

/// `text` with every occurrence of `from` replaced by `to`: the occurrences are
/// taken from the left and do not overlap. An empty `from` occurs nowhere.
pub open spec fn replaced(text: Seq<char>, from: Seq<char>, to: Seq<char>) -> Seq<char>
    decreases text.len(),
{
    if from.len() == 0 || text.len() < from.len() {
        text
    } else if text.subrange(0, from.len() as int) == from {
        to + replaced(text.skip(from.len() as int), from, to)
    } else {
        seq![text[0]] + replaced(text.skip(1), from, to)
    }
}

/// Replaces every occurrence of `from` in `text` by `to`.
pub fn replace_all(text: &str, from: &str, to: &str) -> (out: String)
    ensures
        out@ == replaced(text@, from@, to@),
{
    let n = text.unicode_len();
    let m = from.unicode_len();
    if m == 0 || m > n {
        return String::from_str(text);
    }
    let mut out = String::new();
    let mut i: usize = 0;
    proof {
        assert(text@.skip(0) =~= text@);
        assert(out@ + replaced(text@, from@, to@) =~= replaced(text@, from@, to@));
    }
    while i <= n - m
        invariant
            1 <= m <= n,
            i <= n,
            n == text@.len(),
            m == from@.len(),
            out@ + replaced(text@.skip(i as int), from@, to@) == replaced(text@, from@, to@),
        decreases n - i,
    {
        let ghost rest = text@.skip(i as int);
        let ghost before = out@;
        proof {
            assert(rest.subrange(0, m as int) =~= text@.subrange(i as int, i + m));
        }
        if matches_at(text, from, i, n, m) {
            out.append(to);
            proof {
                assert(rest.skip(m as int) =~= text@.skip(i + m));
                assert(out@ + replaced(text@.skip(i + m), from@, to@) =~= before + (to@ + replaced(
                    rest.skip(m as int),
                    from@,
                    to@,
                )));
            }
            i += m;
        } else {
            out.append(text.substring_char(i, i + 1));
            proof {
                assert(rest.skip(1) =~= text@.skip(i + 1));
                assert(text@.subrange(i as int, i + 1) =~= seq![rest[0]]);
                assert(out@ + replaced(text@.skip(i + 1), from@, to@) =~= before + (seq![rest[0]]
                    + replaced(rest.skip(1), from@, to@)));
            }
            i += 1;
        }
    }
    out.append(text.substring_char(i, n));
    proof {
        assert(text@.subrange(i as int, n as int) =~= text@.skip(i as int));
    }
    out
}

/// The descriptor of the change addresses that goes with a descriptor of the
/// receive addresses: the same with every path `/0/*` turned into `/1/*`.
pub open spec fn internal_of(external: Seq<char>) -> Seq<char> {
    replaced(external, "/0/*"@, "/1/*"@)
}

/// The descriptor of the change addresses that goes with `external`.
pub fn internal_descriptor(external: &str) -> (internal: String)
    ensures
        internal@ == internal_of(external@),
{
    replace_all(external, "/0/*", "/1/*")
}

/// The descriptor of pay-to-witness-public-key-hash addresses of an extended
/// public key under a derivation path, on branch `branch`.
pub open spec fn wpkh_descriptor(path: Seq<char>, xpub: Seq<char>, branch: Seq<char>) -> Seq<char> {
    "wpkh([00000000/"@ + path + "]"@ + xpub + "/"@ + branch + "/*)"@
}

fn wpkh(path: &str, xpub: &str, branch: &str) -> (descriptor: String)
    ensures
        descriptor@ == wpkh_descriptor(path@, xpub@, branch@),
{
    let mut descriptor = String::from_str("wpkh([00000000/");
    descriptor.append(path);
    descriptor.append("]");
    descriptor.append(xpub);
    descriptor.append("/");
    descriptor.append(branch);
    descriptor.append("/*)");
    descriptor
}

/// The derivation path to use: the one given, or that of native segwit accounts.
pub open spec fn path_or_default(path: Option<&str>) -> Seq<char> {
    match path {
        Some(p) => p@,
        None => "84'/0'/0'"@,
    }
}

/// The pair of descriptors of a wallet: for the receive addresses and for the change.
///
/// A descriptor given is taken as it stands for the first, and `internal_of` it for
/// the second. Without one, both are built from the extended public key. With
/// neither the request is refused.
pub fn build_descriptors(
    descriptor: Option<&str>,
    xpub: Option<&str>,
    derivation_path: Option<&str>,
) -> (result: AppResult<(String, String)>)
    ensures
        match (descriptor, xpub) {
            (Some(d), _) => result matches Ok(pair) && pair.0@ == d@ && pair.1@ == internal_of(d@),
            (None, Some(key)) => result matches Ok(pair) && pair.0@ == wpkh_descriptor(
                path_or_default(derivation_path),
                key@,
                "0"@,
            ) && pair.1@ == wpkh_descriptor(path_or_default(derivation_path), key@, "1"@),
            (None, None) => result matches Err(AppError::BadRequest(text)) && text@
                == "Either descriptor or xpub must be provided"@,
        },
{
    match descriptor {
        Some(d) => {
            return Ok((String::from_str(d), internal_descriptor(d)));
        },
        None => {},
    }
    let key = match xpub {
        Some(key) => key,
        None => {
            return Err(
                AppError::BadRequest(String::from_str("Either descriptor or xpub must be provided")),
            );
        },
    };
    let path = match derivation_path {
        Some(p) => p,
        None => "84'/0'/0'",
    };
    Ok((wpkh(path, key, "0"), wpkh(path, key, "1")))
}

} // verus!
