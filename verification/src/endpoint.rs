//! The addresses under which a peer is asked.
//!
//! A peer is known by its base address, such as `http://10.0.0.2:8080`,
//! with or without slashes at its end. The path of a request is put behind
//! the base address with exactly one slash between the two.

use vstd::prelude::*;

verus! {

/// The text without the slashes at its end.
pub open spec fn without_trailing_slashes(text: Seq<char>) -> Seq<char>
    decreases text.len(),
{
    if text.len() > 0 && text.last() == '/' {
        without_trailing_slashes(text.drop_last())
    } else {
        text
    }
}

/// The address of a peer's replication endpoint.
pub open spec fn replicate_address(peer: Seq<char>) -> Seq<char> {
    without_trailing_slashes(peer) + "/replicate"@
}

/// The address under which a peer serves `key`.
pub open spec fn key_address(peer: Seq<char>, key: Seq<char>) -> Seq<char> {
    without_trailing_slashes(peer) + "/key/"@ + key
}

/// The address under which a peer answers a heartbeat.
pub open spec fn ping_address(peer: Seq<char>) -> Seq<char> {
    without_trailing_slashes(peer) + "/ping"@
}

/// A text that ends in slashes from `keep` on, and not before, is without
/// them its first `keep` characters.
proof fn lemma_trailing_slashes(text: Seq<char>, keep: int)
    requires
        0 <= keep <= text.len(),
        forall|j: int| keep <= j < text.len() ==> text[j] == '/',
        keep > 0 ==> text[keep - 1] != '/',
    ensures
        without_trailing_slashes(text) == text.take(keep),
    decreases text.len() - keep,
{
    if keep == text.len() {
        assert(text.take(keep) =~= text);
    } else {
        let shorter = text.drop_last();
        assert(text.last() == text[text.len() - 1]);
        assert forall|j: int| keep <= j < shorter.len() implies shorter[j] == '/' by {
            assert(shorter[j] == text[j]);
        }
        if keep > 0 {
            assert(shorter[keep - 1] == text[keep - 1]);
        }
        lemma_trailing_slashes(shorter, keep);
        assert(shorter.take(keep) =~= text.take(keep));
    }
}

/// The text without the slashes at its end.
pub fn trim_trailing_slashes(text: &str) -> (trimmed: &str)
    ensures
        trimmed@ == without_trailing_slashes(text@),
{
    let len = text.unicode_len();
    let mut keep: usize = 0;
    let mut pos: usize = 0;
    for c in it: text.chars()
        invariant
            it.seq() == text@,
            len == text@.len(),
            pos == it.index(),
            keep <= pos,
            forall|j: int| keep <= j < pos ==> text@[j] == '/',
            keep > 0 ==> text@[keep - 1] != '/',
    {
        pos = pos + 1;
        if c != '/' {
            keep = pos;
        }
    }
    proof {
        lemma_trailing_slashes(text@, keep as int);
    }
    let trimmed = text.substring_char(0, keep);
    assert(trimmed@ =~= text@.take(keep as int));
    trimmed
}

/// The address of a peer's replication endpoint.
pub fn replicate_url(peer: &str) -> (url: String)
    ensures
        url@ == replicate_address(peer@),
{
    String::from_str(trim_trailing_slashes(peer)).concat("/replicate")
}

/// The address under which a peer serves `key`.
pub fn key_url(peer: &str, key: &str) -> (url: String)
    ensures
        url@ == key_address(peer@, key@),
{
    String::from_str(trim_trailing_slashes(peer)).concat("/key/").concat(key)
}

/// The address under which a peer answers a heartbeat.
pub fn ping_url(peer: &str) -> (url: String)
    ensures
        url@ == ping_address(peer@),
{
    String::from_str(trim_trailing_slashes(peer)).concat("/ping")
}

} // verus!
