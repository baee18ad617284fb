//! The interactive operations the engine exposes to the chat front end:
//! recognising a source name under its aliases and storing a subscriber's
//! threshold for it, with the replies the bot answers with.
use crate::subscriber::Subscriber;
use crate::text::{
    ascii_lower, lower_seq, threshold_feedback, threshold_feedback_seq, unsupported_source_line,
    unsupported_source_seq,
};
use vstd::prelude::*;
use vstd::string::*;

verus! {

/// The canonical source a user-typed name means, ASCII case ignored: the
/// accepted aliases of the three supported chains.
pub open spec fn canonical_source(s: Seq<char>) -> Option<Seq<char>> {
    let l = lower_seq(s);
    if l == "ethereum"@ || l == "eth"@ {
        Some("ethereum"@)
    } else if l == "bsc"@ || l == "binance"@ || l == "binance smart chain"@ {
        Some("bsc"@)
    } else if l == "polygon"@ || l == "matic"@ {
        Some("polygon"@)
    } else {
        None
    }
}

/// Recognises a user-typed source name, whatever its capitalisation, and
/// returns its canonical name; None for an unsupported source.
pub fn normalize_source(raw: &String) -> (r: Option<String>)
    ensures
        match r {
            Some(c) => canonical_source(raw@) == Some(c@),
            None => canonical_source(raw@) is None,
        },
{
    let low = ascii_lower(raw);
    if low == String::from_str("ethereum") || low == String::from_str("eth") {
        Some(String::from_str("ethereum"))
    } else if low == String::from_str("bsc") || low == String::from_str("binance") || low
        == String::from_str("binance smart chain") {
        Some(String::from_str("bsc"))
    } else if low == String::from_str("polygon") || low == String::from_str("matic") {
        Some(String::from_str("polygon"))
    } else {
        None
    }
}

/// Stores a threshold under the canonical name of a user-typed source and
/// confirms it; an unsupported source changes nothing and is reported as
/// such.
pub fn set_threshold_command(sub: &mut Subscriber, raw_source: &String, gwei: u32, now: i64) -> (r:
    String)
    requires
        old(sub).wf(),
    ensures
        final(sub).wf(),
        match canonical_source(raw_source@) {
            Some(c) => {
                &&& final(sub).threshold_of(c) == Some(gwei)
                &&& forall|k: Seq<char>|
                    k != c ==> final(sub).threshold_of(k) == old(sub).threshold_of(k)
                &&& final(sub).id == old(sub).id
                &&& final(sub).display_name == old(sub).display_name
                &&& final(sub).watchlist == old(sub).watchlist
                &&& final(sub).notifications_enabled == old(sub).notifications_enabled
                &&& final(sub).created_at == old(sub).created_at
                &&& final(sub).updated_at == now
                &&& r@ == threshold_feedback_seq(c, gwei as nat)
            },
            None => *final(sub) == *old(sub) && r@ == unsupported_source_seq(),
        },
{
    match normalize_source(raw_source) {
        Some(source) => {
            sub.set_threshold(&source, gwei, now);
            threshold_feedback(&source, gwei)
        },
        None => unsupported_source_line(),
    }
}

/// The greeting a first contact is answered with.
pub fn start_greeting() -> (r: String)
    ensures
        r@ == "Hello type /help"@,
{
    String::from_str("Hello type /help")
}

} // verus!
