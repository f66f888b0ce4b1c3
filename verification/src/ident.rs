//! Identifier rules: module ids are reverse-DNS names made of lowercase ASCII
//! identifiers, and provider ids are single such identifiers.

use vstd::prelude::*;
use vstd::string::StringSliceAdditionalSpecFns;
use crate::error::{ManifestError, invalid, outcome_matches};
use crate::unicode::{debug_quoted, debug_text};

verus! {

/// A byte allowed in an identifier: lowercase ASCII letter, ASCII digit or `-`.
pub open spec fn is_id_byte(b: u8) -> bool {
    (0x61 <= b <= 0x7a) || (0x30 <= b <= 0x39) || b == 0x2d
}

/// One identifier: 1 to 63 identifier bytes that neither start nor end with `-`.
pub open spec fn id_part_ok(p: Seq<u8>) -> bool {
    &&& 0 < p.len() <= 63
    &&& p[0] != 0x2d
    &&& p[p.len() - 1] != 0x2d
    &&& forall|i: int| 0 <= i < p.len() ==> is_id_byte(#[trigger] p[i])
}

/// `b[start..end]` is one of the pieces that splitting `b` at every `.` yields.
pub open spec fn is_dot_piece(b: Seq<u8>, start: int, end: int) -> bool {
    &&& 0 <= start <= end <= b.len()
    &&& (start == 0 || b[start - 1] == 0x2e)
    &&& (end == b.len() || b[end] == 0x2e)
    &&& forall|k: int| start <= k < end ==> #[trigger] b[k] != 0x2e
}

/// A module id: at most 128 bytes, at least two `.`-separated pieces, each an identifier.
pub open spec fn module_id_ok(b: Seq<u8>) -> bool {
    &&& b.len() <= 128
    &&& exists|k: int| 0 <= k < b.len() && #[trigger] b[k] == 0x2e
    &&& forall|s: int, e: int| #[trigger] is_dot_piece(b, s, e) ==> id_part_ok(b.subrange(s, e))
}

/// A provider id: at most 64 bytes forming one identifier.
pub open spec fn provider_id_ok(b: Seq<u8>) -> bool {
    b.len() <= 64 && id_part_ok(b)
}

/// Two identifiers joined by a `.` make a module id, when the whole fits in 128 bytes:
/// the pieces of a module id follow exactly the rule of a single identifier, so a piece
/// such as `jane-doe` is accepted.
pub proof fn lemma_dot_joined_identifiers_are_module_id(a: Seq<u8>, b: Seq<u8>)
    requires
        id_part_ok(a),
        id_part_ok(b),
        a.len() + 1 + b.len() <= 128,
    ensures
        module_id_ok(a + seq![0x2eu8] + b),
{
    let s = a + seq![0x2eu8] + b;
    let n = a.len() as int;
    assert(s[n] == 0x2e);
    assert forall|k: int| 0 <= k < s.len() && k != n implies #[trigger] s[k] != 0x2e by {
        if k < n {
            assert(s[k] == a[k]);
            assert(is_id_byte(a[k]));
        } else {
            assert(s[k] == b[k - n - 1]);
            assert(is_id_byte(b[k - n - 1]));
        }
    }
    assert forall|st: int, e: int| #[trigger] is_dot_piece(s, st, e) implies id_part_ok(s.subrange(st, e)) by {
        if st == 0 {
            if e > n {
                assert(s[n] != 0x2e);
            }
            assert(e == n);
            assert(s.subrange(st, e) =~= a);
        } else {
            assert(s[st - 1] == 0x2e);
            assert(st == n + 1);
            if e < s.len() {
                assert(s[e] == 0x2e);
            }
            assert(e == s.len());
            assert(s.subrange(st, e) =~= b);
        }
    }
}

/// Every piece of an accepted module id is an identifier by the single-identifier
/// rule, and every byte is an identifier byte or a `.`.
pub proof fn lemma_module_id_pieces(b: Seq<u8>)
    requires
        module_id_ok(b),
    ensures
        forall|s: int, e: int| is_dot_piece(b, s, e) ==> #[trigger] id_part_ok(b.subrange(s, e)),
        forall|k: int| 0 <= k < b.len() ==> is_id_byte(#[trigger] b[k]) || b[k] == 0x2e,
{
    assert forall|k: int| 0 <= k < b.len() implies is_id_byte(#[trigger] b[k]) || b[k] == 0x2e by {
        if b[k] != 0x2e {
            let x = lemma_piece_begin(b, k);
            let z = lemma_piece_end(b, k);
            assert(is_dot_piece(b, x, z));
            assert(id_part_ok(b.subrange(x, z)));
            assert(b.subrange(x, z)[k - x] == b[k]);
        }
    }
}

proof fn lemma_piece_begin(b: Seq<u8>, k: int) -> (x: int)
    requires
        0 <= k < b.len(),
        b[k] != 0x2e,
    ensures
        0 <= x <= k,
        x == 0 || b[x - 1] == 0x2e,
        forall|y: int| x <= y <= k ==> #[trigger] b[y] != 0x2e,
    decreases k,
{
    if k == 0 || b[k - 1] == 0x2e {
        k
    } else {
        let x = lemma_piece_begin(b, k - 1);
        x
    }
}

proof fn lemma_piece_end(b: Seq<u8>, k: int) -> (z: int)
    requires
        0 <= k < b.len(),
        b[k] != 0x2e,
    ensures
        k < z <= b.len(),
        z == b.len() || b[z] == 0x2e,
        forall|y: int| k <= y < z ==> #[trigger] b[y] != 0x2e,
    decreases b.len() - k,
{
    if k + 1 == b.len() || b[k + 1] == 0x2e {
        k + 1
    } else {
        let z = lemma_piece_end(b, k + 1);
        z
    }
}

/// The refusal text for a module id.
pub open spec fn module_id_error(id: Seq<char>) -> Seq<char> {
    "module id "@ + debug_text(id) + " must be dot-separated lowercase ASCII identifiers"@
}

/// The refusal text for a provider id.
pub open spec fn provider_id_error(id: Seq<char>) -> Seq<char> {
    "provider id "@ + debug_text(id) + " must be a lowercase ASCII identifier"@
}

fn part_ok(b: &[u8], start: usize, end: usize) -> (res: bool)
    requires
        start <= end <= b@.len(),
    ensures
        res == id_part_ok(b@.subrange(start as int, end as int)),
{
    let ghost p = b@.subrange(start as int, end as int);
    if start == end || end - start > 63 || b[start] == 0x2d || b[end - 1] == 0x2d {
        return false;
    }
    let mut i = start;
    while i < end
        invariant
            start <= i <= end <= b@.len(),
            p == b@.subrange(start as int, end as int),
            forall|k: int| 0 <= k < i - start ==> is_id_byte(#[trigger] p[k]),
        decreases end - i,
    {
        let c = b[i];
        if !((0x61 <= c && c <= 0x7a) || (0x30 <= c && c <= 0x39) || c == 0x2d) {
            assert(!is_id_byte(p[i - start]));
            return false;
        }
        i += 1;
    }
    true
}

/// Whether `value` is one identifier: 1 to 63 bytes of lowercase ASCII letters, digits
/// and `-`, neither starting nor ending with `-`.
pub fn valid_id_part(value: &str) -> (res: bool)
    ensures
        res == id_part_ok(value.spec_bytes()),
{
    let b = value.as_bytes();
    proof {
        assert(b@.subrange(0, b@.len() as int) == b@);
    }
    part_ok(b, 0, b.len())
}

proof fn lemma_piece_start(b: Seq<u8>, start: int, s: int, e: int)
    requires
        0 <= start <= e,
        start == 0 || b[start - 1] == 0x2e,
        forall|k: int| start <= k < e ==> #[trigger] b[k] != 0x2e,
        is_dot_piece(b, s, e),
    ensures
        s == start,
{
    if s < start {
        assert(b[start - 1] != 0x2e);
    } else if s > start {
        assert(b[s - 1] != 0x2e);
    }
}

fn module_id_bytes_ok(b: &[u8]) -> (res: bool)
    ensures
        res == module_id_ok(b@),
{
    let n = b.len();
    if n > 128 {
        return false;
    }
    let mut start: usize = 0;
    let mut saw_dot = false;
    let mut ok = true;
    let mut i: usize = 0;
    while i < n
        invariant
            n == b@.len(),
            n <= 128,
            start <= i <= n,
            start == 0 || b@[start - 1] == 0x2e,
            forall|k: int| start <= k < i ==> #[trigger] b@[k] != 0x2e,
            saw_dot == exists|k: int| 0 <= k < i && #[trigger] b@[k] == 0x2e,
            ok == forall|s: int, e: int| #[trigger] is_dot_piece(b@, s, e) && e < start ==> id_part_ok(b@.subrange(s, e)),
        decreases n - i,
    {
        if b[i] == 0x2e {
            let piece = part_ok(b, start, i);
            proof {
                assert(is_dot_piece(b@, start as int, i as int));
                assert forall|s: int, e: int| #[trigger] is_dot_piece(b@, s, e) && e < i + 1 implies
                    (e < start || (s == start && e == i)) by {
                    if e >= start {
                        if e < i {
                            assert(b@[e] != 0x2e);
                        }
                        lemma_piece_start(b@, start as int, s, e);
                    }
                }
            }
            ok = ok && piece;
            saw_dot = true;
            start = i + 1;
        }
        i += 1;
    }
    let last = part_ok(b, start, n);
    proof {
        assert(is_dot_piece(b@, start as int, n as int));
        assert forall|s: int, e: int| #[trigger] is_dot_piece(b@, s, e) implies
            (e < start || (s == start && e == n)) by {
            if e >= start {
                if e < n {
                    assert(b@[e] != 0x2e);
                }
                lemma_piece_start(b@, start as int, s, e);
            }
        }
    }
    saw_dot && ok && last
}

/// Checks that `id` is a module id: dot-separated lowercase ASCII identifiers, at least
/// two of them, at most 128 bytes in all.
pub fn validate_module_id(id: &str) -> (res: Result<(), ManifestError>)
    ensures
        res is Ok <==> module_id_ok(id.spec_bytes()),
        !module_id_ok(id.spec_bytes()) ==> outcome_matches(res, Err(module_id_error(id@))),
{
    if !module_id_bytes_ok(id.as_bytes()) {
        let mut msg = String::from_str("module id ");
        let quoted = debug_quoted(id);
        msg.append(quoted.as_str());
        msg.append(" must be dot-separated lowercase ASCII identifiers");
        return invalid(msg);
    }
    Ok(())
}

/// Checks that `id` is a provider id: one lowercase ASCII identifier of at most 64 bytes.
pub fn validate_provider_id(id: &str) -> (res: Result<(), ManifestError>)
    ensures
        res is Ok <==> provider_id_ok(id.spec_bytes()),
        !provider_id_ok(id.spec_bytes()) ==> outcome_matches(res, Err(provider_id_error(id@))),
{
    if id.len() > 64 || !valid_id_part(id) {
        let mut msg = String::from_str("provider id ");
        let quoted = debug_quoted(id);
        msg.append(quoted.as_str());
        msg.append(" must be a lowercase ASCII identifier");
        return invalid(msg);
    }
    Ok(())
}

} // verus!
