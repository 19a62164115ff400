//! The daemon's replies: how the outcome of each request against the keyboard
//! becomes a [`Response`], and how it moves the "active profile" label.
use vstd::prelude::*;
use vstd::string::{StrSliceExecFns, StringSliceAdditionalSpecFns};
use vstd::utf8::encode_utf8;

use crate::error::Error;
use crate::gui::app::str_eq;
use crate::ipc::{Response, Status};
use crate::protocol::consts::TOTAL_KEYS;
use crate::protocol::Identity;

verus! {

/// The profile name stored in a file called `name`: the part before a final
/// `.toml`, when that part is not empty.
pub open spec fn spec_toml_stem(name: Seq<char>) -> Option<Seq<char>> {
    if name.len() > 5 && name.subrange(name.len() - 5, name.len() as int) == ".toml"@ {
        Some(name.subrange(0, name.len() - 5))
    } else {
        None
    }
}

/// The profile name stored in the profile file `file_name`, if it is one.
pub fn toml_stem(file_name: &str) -> (r: Option<String>)
    ensures
        match r {
            Some(s) => spec_toml_stem(file_name@) == Some(s@),
            None => spec_toml_stem(file_name@) is None,
        },
{
    let n = file_name.unicode_len();
    if n <= 5 {
        return None;
    }
    let suffix = file_name.substring_char(n - 5, n);
    if !str_eq(suffix, ".toml") {
        return None;
    }
    Some(file_name.substring_char(0, n - 5).to_owned())
}

/// Slot `i` shows travel in `cur` and showed none in `prev` (a slot that
/// `prev` does not cover showed none).
pub open spec fn went_down(prev: Seq<u8>, cur: Seq<u8>, i: int) -> bool {
    0 <= i < cur.len() && cur[i] > 0 && (i >= prev.len() || prev[i] == 0)
}

/// The slots pressed between two depth frames, in increasing order: those
/// that show travel now and showed none before. Used to name the keys a user
/// presses.
pub fn newly_pressed(prev: &[u8], cur: &[u8]) -> (r: Vec<usize>)
    ensures
        forall|a: int, b: int| 0 <= a < b < r@.len() ==> r@[a] < r@[b],
        forall|a: int| 0 <= a < r@.len() ==> went_down(prev@, cur@, (#[trigger] r@[a]) as int),
        forall|i: int| #[trigger] went_down(prev@, cur@, i) ==> r@.contains(i as usize),
{
    let mut r: Vec<usize> = Vec::new();
    let mut i: usize = 0;
    while i < cur.len()
        invariant
            i <= cur@.len(),
            forall|a: int, b: int| 0 <= a < b < r@.len() ==> r@[a] < r@[b],
            forall|a: int|
                0 <= a < r@.len() ==> (#[trigger] r@[a]) < i && went_down(prev@, cur@, r@[a] as int),
            forall|j: int| 0 <= j < i && #[trigger] went_down(prev@, cur@, j) ==> r@.contains(j as usize),
        decreases cur@.len() - i,
    {
        if cur[i] > 0 && (i >= prev.len() || prev[i] == 0) {
            let ghost old_r = r@;
            r.push(i);
            proof {
                assert(r@[old_r.len() as int] == i);
                assert forall|j: int| 0 <= j <= i && #[trigger] went_down(prev@, cur@, j) implies r@.contains(
                    j as usize,
                ) by {
                    if j < i {
                        let w = choose|w: int| 0 <= w < old_r.len() && old_r[w] == j as usize;
                        assert(r@[w] == j as usize);
                    } else {
                        assert(r@[old_r.len() as int] == j as usize);
                    }
                }
            }
        }
        i = i + 1;
    }
    r
}

/// `a` comes no later than `b` in byte-wise lexicographic order, the order of
/// `str`'s comparison operators.
pub open spec fn bytes_le(a: Seq<u8>, b: Seq<u8>) -> bool
    decreases a.len(),
{
    if a.len() == 0 {
        true
    } else if b.len() == 0 {
        false
    } else if a[0] != b[0] {
        a[0] < b[0]
    } else {
        bytes_le(a.drop_first(), b.drop_first())
    }
}

/// Any two byte strings are ordered one way or the other.
pub proof fn lemma_bytes_le_total(a: Seq<u8>, b: Seq<u8>)
    ensures
        bytes_le(a, b) || bytes_le(b, a),
    decreases a.len(),
{
    if a.len() > 0 && b.len() > 0 && a[0] == b[0] {
        lemma_bytes_le_total(a.drop_first(), b.drop_first());
    }
}

/// Byte-wise lexicographic order is transitive.
pub proof fn lemma_bytes_le_transitive(a: Seq<u8>, b: Seq<u8>, c: Seq<u8>)
    requires
        bytes_le(a, b),
        bytes_le(b, c),
    ensures
        bytes_le(a, c),
    decreases a.len(),
{
    if a.len() > 0 && b.len() > 0 && c.len() > 0 && a[0] == b[0] && b[0] == c[0] {
        lemma_bytes_le_transitive(a.drop_first(), b.drop_first(), c.drop_first());
    }
}

/// Byte-wise comparison of `a[i..]` with `b[j..]`.
fn bytes_le_from(a: &[u8], b: &[u8], i: usize, j: usize) -> (r: bool)
    requires
        i <= a@.len(),
        j <= b@.len(),
    ensures
        r == bytes_le(a@.subrange(i as int, a@.len() as int), b@.subrange(j as int, b@.len() as int)),
    decreases a@.len() - i,
{
    let ghost x = a@.subrange(i as int, a@.len() as int);
    let ghost y = b@.subrange(j as int, b@.len() as int);
    if i == a.len() {
        return true;
    }
    if j == b.len() {
        return false;
    }
    assert(x.drop_first() =~= a@.subrange(i + 1, a@.len() as int));
    assert(y.drop_first() =~= b@.subrange(j + 1, b@.len() as int));
    if a[i] != b[j] {
        a[i] < b[j]
    } else {
        bytes_le_from(a, b, i + 1, j + 1)
    }
}

/// `a` comes no later than `b` in byte-wise order.
pub fn str_le(a: &str, b: &str) -> (r: bool)
    ensures
        r == bytes_le(a.spec_bytes(), b.spec_bytes()),
{
    let x = a.as_bytes();
    let y = b.as_bytes();
    assert(x@.subrange(0, x@.len() as int) =~= x@);
    assert(y@.subrange(0, y@.len() as int) =~= y@);
    bytes_le_from(x, y, 0, 0)
}

/// The contents of each string.
pub open spec fn views(s: Seq<String>) -> Seq<Seq<char>> {
    s.map_values(|x: String| x@)
}

/// The profile names held by a list of file names, in their order.
pub open spec fn stems(names: Seq<Seq<char>>) -> Seq<Seq<char>>
    decreases names.len(),
{
    if names.len() == 0 {
        Seq::empty()
    } else {
        let rest = stems(names.drop_last());
        match spec_toml_stem(names.last()) {
            Some(t) => rest.push(t),
            None => rest,
        }
    }
}

/// Every name of `s` comes no later than the names after it.
pub open spec fn sorted_names(s: Seq<String>) -> bool {
    forall|a: int, b: int|
        0 <= a < b < s.len() ==> bytes_le(encode_utf8(#[trigger] s[a]@), encode_utf8(#[trigger] s[b]@))
}

/// The profile names stored in a directory holding `file_names`: the stem of
/// each profile file, in byte-wise order.
pub fn profile_names(file_names: &Vec<String>) -> (r: Vec<String>)
    ensures
        sorted_names(r@),
        views(r@).to_multiset() == stems(views(file_names@)).to_multiset(),
{
    let mut r: Vec<String> = Vec::new();
    let mut i: usize = 0;
    proof {
        assert(views(r@) =~= Seq::<Seq<char>>::empty());
        assert(views(file_names@.take(0)) =~= Seq::<Seq<char>>::empty());
    }
    while i < file_names.len()
        invariant
            i <= file_names@.len(),
            sorted_names(r@),
            views(r@).to_multiset() == stems(views(file_names@.take(i as int))).to_multiset(),
        decreases file_names@.len() - i,
    {
        proof {
            assert(views(file_names@.take(i as int + 1)).drop_last() =~= views(
                file_names@.take(i as int),
            ));
            assert(views(file_names@.take(i as int + 1)).last() == file_names@[i as int]@);
        }
        match toml_stem(file_names[i].as_str()) {
            Some(stem) => {
                let mut p: usize = 0;
                while p < r.len() && str_le(r[p].as_str(), stem.as_str())
                    invariant
                        p <= r@.len(),
                        forall|a: int| 0 <= a < p ==> bytes_le(encode_utf8(#[trigger] r@[a]@), encode_utf8(stem@)),
                    decreases r@.len() - p,
                {
                    p = p + 1;
                }
                let ghost old_r = r@;
                proof {
                    if p < old_r.len() {
                        lemma_bytes_le_total(encode_utf8(old_r[p as int]@), encode_utf8(stem@));
                    }
                }
                let ghost sv = stem@;
                r.insert(p, stem);
                proof {
                    assert forall|a: int, b: int| 0 <= a < b < r@.len() implies bytes_le(
                        encode_utf8(#[trigger] r@[a]@),
                        encode_utf8(#[trigger] r@[b]@),
                    ) by {
                        if b == p as int {
                        } else if a == p as int && b - 1 > p as int {
                            assert(sorted_names(old_r));
                            assert(bytes_le(encode_utf8(old_r[p as int]@), encode_utf8(old_r[b - 1]@)));
                            lemma_bytes_le_transitive(
                                encode_utf8(r@[a]@),
                                encode_utf8(old_r[p as int]@),
                                encode_utf8(old_r[b - 1]@),
                            );
                        } else if a == p as int {
                        } else if a < p && p < b {
                            assert(r@[a] == old_r[a]);
                            assert(r@[b] == old_r[b - 1]);
                        } else if b < p {
                            assert(r@[a] == old_r[a]);
                            assert(r@[b] == old_r[b]);
                        } else {
                            assert(r@[a] == old_r[a - 1]);
                            assert(r@[b] == old_r[b - 1]);
                        }
                    }
                    assert(views(r@) =~= views(old_r).insert(p as int, sv));
                    vstd::seq_lib::to_multiset_insert(views(old_r), p as int, sv);
                    vstd::seq_lib::to_multiset_build(stems(views(file_names@.take(i as int))), sv);
                }
            },
            None => {},
        }
        i = i + 1;
    }
    proof {
        assert(file_names@.take(file_names@.len() as int) =~= file_names@);
    }
    r
}

/// `r` is an error reply carrying the text of `e`.
pub open spec fn is_error_reply(r: Response, e: Error) -> bool {
    r matches Response::Error(m) && m@ == e.spec_message()
}

/// A copy of an optional string.
fn copy_label(label: &Option<String>) -> (r: Option<String>)
    ensures
        match (label, r) {
            (Some(a), Some(b)) => a@ == b@,
            (None, None) => true,
            _ => false,
        },
{
    match label {
        Some(s) => Some(s.clone()),
        None => None,
    }
}

/// A manual change clears the "active profile" label, since the live config no
/// longer matches a stored profile. A failure leaves the label alone and is
/// reported as an error reply.
pub fn into_response(result: Result<(), Error>, active: &mut Option<String>) -> (r: Response)
    ensures
        match result {
            Ok(()) => r is Success && *final(active) is None,
            Err(e) => is_error_reply(r, e) && *final(active) == *old(active),
        },
{
    match result {
        Ok(()) => {
            *active = None;
            Response::Success
        },
        Err(e) => Response::Error(e.message()),
    }
}

/// Applying a stored profile: on success the profile becomes the active one.
pub fn apply_profile_response(name: String, result: Result<(), Error>, active: &mut Option<String>) -> (r: Response)
    ensures
        match result {
            Ok(()) => r is Success && *final(active) == Some(name),
            Err(e) => is_error_reply(r, e) && *final(active) == *old(active),
        },
{
    match result {
        Ok(()) => {
            *active = Some(name);
            Response::Success
        },
        Err(e) => Response::Error(e.message()),
    }
}

/// The status reply: the identity the keyboard reported, with the active
/// profile label.
pub fn status_response(result: Result<Identity, Error>, active: &Option<String>) -> (r: Response)
    ensures
        match result {
            Ok(id) => r matches Response::Status(s) && {
                &&& s.model@ == id.model.spec_name()
                &&& s.firmware@ == id.firmware_version@
                &&& s.rapid_trigger == id.rapid_trigger
                &&& s.turbo == id.turbo
                &&& match (s.active_profile, *active) {
                    (Some(a), Some(b)) => a@ == b@,
                    (None, None) => true,
                    _ => false,
                }
            },
            Err(e) => is_error_reply(r, e),
        },
{
    match result {
        Ok(id) => Response::Status(
            Status {
                model: String::from_str(id.model.name()),
                firmware: id.firmware_version,
                rapid_trigger: id.rapid_trigger,
                turbo: id.turbo,
                active_profile: copy_label(active),
            },
        ),
        Err(e) => Response::Error(e.message()),
    }
}

/// The reply to a depth-frame request: the frame, an error when no row of it
/// arrived in time, or the device error.
pub fn depths_response(result: Result<Option<[u8; TOTAL_KEYS]>, Error>) -> (r: Response)
    ensures
        match result {
            Ok(Some(f)) => r matches Response::Depths(v) && v@ == f@,
            Ok(None) => r matches Response::Error(m) && m@ == "no depth data"@,
            Err(e) => is_error_reply(r, e),
        },
{
    match result {
        Ok(Some(frame)) => {
            let mut v: Vec<u8> = Vec::new();
            let mut i: usize = 0;
            while i < TOTAL_KEYS
                invariant
                    i <= TOTAL_KEYS,
                    v@ == frame@.subrange(0, i as int),
                decreases TOTAL_KEYS - i,
            {
                v.push(frame[i]);
                i = i + 1;
                assert(v@ =~= frame@.subrange(0, i as int));
            }
            assert(frame@.subrange(0, TOTAL_KEYS as int) =~= frame@);
            Response::Depths(v)
        },
        Ok(None) => Response::Error(String::from_str("no depth data")),
        Err(e) => Response::Error(e.message()),
    }
}

/// The position of the first name equal to `label`, at or after `from`.
pub open spec fn position_from(names: Seq<String>, label: Seq<char>, from: int) -> Option<int>
    decreases names.len() - from,
{
    if from < 0 || from >= names.len() {
        None
    } else if names[from]@ == label {
        Some(from)
    } else {
        position_from(names, label, from + 1)
    }
}

/// The profile the cycle-profile shortcut switches to: the one after the active
/// profile in the (sorted) list of stored profiles, wrapping around to the first;
/// the first one when no listed profile is active; nothing when the store is
/// empty.
pub open spec fn spec_next_profile(names: Seq<String>, active: Option<String>) -> Option<Seq<char>> {
    if names.len() == 0 {
        None
    } else {
        match active {
            Some(a) => match position_from(names, a@, 0) {
                Some(k) => Some(names[(k + 1) % (names.len() as int)]@),
                None => Some(names[0]@),
            },
            None => Some(names[0]@),
        }
    }
}

/// Choose the profile to cycle to.
pub fn next_profile(names: &Vec<String>, active: &Option<String>) -> (r: Option<String>)
    ensures
        match spec_next_profile(names@, *active) {
            Some(p) => r matches Some(s) && s@ == p,
            None => r is None,
        },
{
    if names.len() == 0 {
        return None;
    }
    if let Some(a) = active {
        let mut k: usize = 0;
        while k < names.len()
            invariant
                0 < names@.len(),
                k <= names@.len(),
                *active == Some(*a),
                position_from(names@, a@, k as int) == position_from(names@, a@, 0),
            decreases names@.len() - k,
        {
            if names[k] == *a {
                let next = if k + 1 == names.len() { 0 } else { k + 1 };
                assert(next as int == (k + 1) % (names@.len() as int)) by (nonlinear_arith)
                    requires
                        k < names@.len(),
                        next == if k + 1 == names@.len() { 0 } else { k + 1 },
                ;
                return Some(names[next].clone());
            }
            k = k + 1;
        }
    }
    Some(names[0].clone())
}

} // verus!
