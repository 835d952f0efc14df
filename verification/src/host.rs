//! Host identifiers: an address or hostname followed by the `.local.` marker.

use vstd::prelude::*;
use vstd::string::*;

verus! {

/// The domain suffix marker that closes a host identifier.
pub const LOCAL_MARKER: &'static str = ".local.";

/// The marker as a sequence of characters.
pub open spec fn local_marker() -> Seq<char> {
    seq!['.', 'l', 'o', 'c', 'a', 'l', '.']
}

/// The marker occupies the seven positions of `s` that start at `i`.
pub open spec fn marker_at(s: Seq<char>, i: int) -> bool {
    0 <= i && i + 7 <= s.len() && s.subrange(i, i + 7) == local_marker()
}

/// The marker occurs somewhere in `s`.
pub open spec fn has_marker(s: Seq<char>) -> bool {
    exists|i: int| marker_at(s, i)
}

/// `i` is the position of the leftmost marker in `s`.
pub open spec fn is_first_marker(s: Seq<char>, i: int) -> bool {
    marker_at(s, i) && forall|j: int| 0 <= j < i ==> !marker_at(s, j)
}

/// The position of the leftmost marker in `s`, where there is one.
pub open spec fn first_marker(s: Seq<char>) -> int {
    choose|i: int| is_first_marker(s, i)
}

/// The bare token of a host identifier: what stands before its leftmost
/// marker. An identifier without a marker has no token.
pub open spec fn host_token_of(s: Seq<char>) -> Option<Seq<char>> {
    if has_marker(s) {
        Some(s.subrange(0, first_marker(s)))
    } else {
        None
    }
}

/// The host identifier under which an address is advertised.
pub open spec fn host_identifier_of(address: Seq<char>) -> Seq<char> {
    address + local_marker()
}

/// The leftmost marker position is unique.
pub proof fn lemma_first_marker_unique(s: Seq<char>, i: int)
    requires
        is_first_marker(s, i),
    ensures
        has_marker(s),
        first_marker(s) == i,
        host_token_of(s) == Some(s.subrange(0, i)),
{
    let c = first_marker(s);
    assert(is_first_marker(s, c));
    if c < i {
        assert(!marker_at(s, c));
    }
    if i < c {
        assert(!marker_at(s, i));
    }
}

/// The text of the marker constant.
pub proof fn lemma_marker_text()
    ensures
        LOCAL_MARKER@ == local_marker(),
{
    reveal_strlit(".local.");
    assert(LOCAL_MARKER@ =~= local_marker());
}

/// Whether the marker stands at position `i` of `host`, whose length in
/// characters is `n`.
fn marker_stands_at(host: &str, i: usize, n: usize) -> (found: bool)
    requires
        n == host@.len(),
        i + 7 <= n,
    ensures
        found == marker_at(host@, i as int),
{
    proof {
        lemma_marker_text();
    }
    let ghost window = host@.subrange(i as int, i + 7);
    let mut k: usize = 0;
    while k < 7
        invariant
            k <= 7,
            n == host@.len(),
            i + 7 <= n,
            LOCAL_MARKER@ == local_marker(),
            window == host@.subrange(i as int, i + 7),
            forall|j: int| 0 <= j < k ==> window[j] == local_marker()[j],
        decreases 7 - k,
    {
        if host.get_char(i + k) != LOCAL_MARKER.get_char(k) {
            assert(window[k as int] != local_marker()[k as int]);
            return false;
        }
        k += 1;
    }
    assert(window =~= local_marker());
    true
}

/// Parses a host identifier: returns the token before the leftmost
/// `.local.` marker, or `None` where the identifier holds no marker.
pub fn host_token<'a>(host: &'a str) -> (token: Option<&'a str>)
    ensures
        match token {
            Some(t) => host_token_of(host@) == Some(t@),
            None => host_token_of(host@) is None,
        },
{
    let n: usize = host.unicode_len();
    if n < 7 {
        assert(forall|j: int| !marker_at(host@, j));
        return None;
    }
    let mut i: usize = 0;
    while i <= n - 7
        invariant
            n == host@.len(),
            n >= 7,
            forall|j: int| 0 <= j < i ==> !marker_at(host@, j),
        decreases n - i,
    {
        if marker_stands_at(host, i, n) {
            proof {
                lemma_first_marker_unique(host@, i as int);
            }
            return Some(host.substring_char(0, i));
        }
        i += 1;
    }
    assert(forall|j: int| !marker_at(host@, j));
    None
}

/// Builds the host identifier under which `address` is advertised: the
/// address followed by the marker.
pub fn host_identifier(address: &str) -> (host: String)
    ensures
        host@ == host_identifier_of(address@),
{
    proof {
        lemma_marker_text();
    }
    let base = address.to_owned();
    base.concat(LOCAL_MARKER)
}

/// Whether two texts hold the same characters.
pub fn same_text(a: &str, b: &str) -> (same: bool)
    ensures
        same == (a@ == b@),
{
    let left = a.to_owned();
    let right = b.to_owned();
    left == right
}

/// A host identifier built from an address holds the marker right after
/// the address, so it always has a token.
pub proof fn lemma_identifier_has_marker(address: Seq<char>)
    ensures
        marker_at(host_identifier_of(address), address.len() as int),
        has_marker(host_identifier_of(address)),
{
    let s = host_identifier_of(address);
    assert(s.subrange(address.len() as int, address.len() as int + 7) =~= local_marker());
    assert(marker_at(s, address.len() as int));
}

/// No marker starts at position `j` inside the address part of a host
/// identifier when the character after `j` is not the letter `l`.
proof fn lemma_no_marker_inside(address: Seq<char>, j: int)
    requires
        0 <= j < address.len(),
        j + 1 < address.len() ==> address[j + 1] != 'l',
    ensures
        !marker_at(host_identifier_of(address), j),
{
    let s = host_identifier_of(address);
    let n = address.len() as int;
    if j + 7 <= s.len() {
        let window = s.subrange(j, j + 7);
        assert(window[1] == s[j + 1]);
        assert(local_marker()[1] == 'l');
        if j + 1 < n {
            assert(s[j + 1] == address[j + 1]);
            assert(window != local_marker());
        } else {
            assert(s[j + 1] == local_marker()[0]);
            assert(window != local_marker());
        }
    }
}

/// An address without the letter `l` (every numeric address is one) is the
/// token of its own host identifier: building the identifier and parsing it
/// gives the address back.
pub proof fn lemma_identifier_round_trip(address: Seq<char>)
    requires
        forall|i: int| 0 <= i < address.len() ==> address[i] != 'l',
    ensures
        host_token_of(host_identifier_of(address)) == Some(address),
{
    let s = host_identifier_of(address);
    let n = address.len() as int;
    lemma_identifier_has_marker(address);
    assert forall|j: int| 0 <= j < n implies !marker_at(s, j) by {
        lemma_no_marker_inside(address, j);
    }
    lemma_first_marker_unique(s, n);
    assert(s.subrange(0, n) =~= address);
}

} // verus!
