//! Inbound wire framing: a message ends at the first run of three or
//! more terminator characters (`!`) found scanning backward from the
//! end of the buffer; the message is everything before that run, and
//! the run and anything after it are discarded. A buffer holding no
//! terminator run yields the empty message: unterminated input is
//! dropped, not parsed verbatim.

use vstd::prelude::*;
use vstd::string::*;
use crate::input::Input;

verus! {

/// The terminator character ending a message.
pub open spec fn term_char() -> char {
    '!'
}

/// A run of at least three terminators starts at or covers `i`.
pub open spec fn has_term_run_at(s: Seq<char>, i: int) -> bool {
    &&& 0 <= i
    &&& i + 3 <= s.len()
    &&& s[i] == term_char()
    &&& s[i + 1] == term_char()
    &&& s[i + 2] == term_char()
}

/// Characters `a` up to `b` are all terminators.
pub open spec fn all_term(s: Seq<char>, a: int, b: int) -> bool {
    forall|t: int| a <= t < b ==> s[t] == term_char()
}

/// Position `r` starts the last terminator run of the buffer: a run
/// of three or more terminators begins exactly there, and any run
/// further right lies inside this same run.
pub open spec fn is_frame_boundary(s: Seq<char>, r: int) -> bool {
    &&& has_term_run_at(s, r)
    &&& (r == 0 || s[r - 1] != term_char())
    &&& forall|i: int| i > r && #[trigger] has_term_run_at(s, i) ==> all_term(s, r, i)
}

/// At most one position starts the last terminator run.
pub proof fn lemma_boundary_unique(s: Seq<char>, r1: int, r2: int)
    requires
        is_frame_boundary(s, r1),
        is_frame_boundary(s, r2),
    ensures
        r1 == r2,
{
    if r1 < r2 {
        assert(all_term(s, r1, r2));
        assert(s[r2 - 1] == term_char());
    }
    if r2 < r1 {
        assert(all_term(s, r2, r1));
        assert(s[r1 - 1] == term_char());
    }
}

/// Where the message ends: the start of the last run of three or
/// more terminators, or 0 when the buffer holds no such run.
pub fn find_stream_end_chars(msg: String) -> (r: usize)
    ensures
        r <= msg@.len(),
        (exists|i: int| has_term_run_at(msg@, i)) ==> is_frame_boundary(msg@, r as int),
        !(exists|i: int| has_term_run_at(msg@, i)) ==> r == 0,
{
    let s = msg.as_str();
    let n = s.unicode_len();
    let mut i: usize = n;
    let mut c: usize = 0;
    let mut found = false;
    let mut q: usize = 0;
    while i > 0 && !found
        invariant
            n == s@.len(),
            s@ == msg@,
            i <= n,
            !found ==> c <= 2,
            !found ==> i + c <= n,
            !found ==> all_term(s@, i as int, i + c),
            !found ==> (i + c == n || s@[i + c] != term_char()),
            !found ==> forall|i2: int| i2 >= i ==> !has_term_run_at(s@, i2),
            found ==> has_term_run_at(s@, q as int) && forall|i2: int|
                i2 > q ==> !has_term_run_at(s@, i2),
        decreases i + (if found {
            0int
        } else {
            1int
        }),
    {
        let ch = s.get_char(i - 1);
        if ch == '!' {
            c = c + 1;
            if c >= 3 {
                q = i - 1;
                found = true;
                proof {
                    assert(has_term_run_at(s@, q as int));
                    assert forall|i2: int| i2 > q implies !has_term_run_at(s@, i2) by {
                        if i2 == q + 1 || i2 == q + 2 {
                            if has_term_run_at(s@, i2) {
                                assert(s@[i2 + 2] == term_char());
                                assert(i + 2 <= i2 + 2 < i2 + 3 <= n);
                                assert(i + 2 == n || s@[i + 2] != term_char());
                            }
                        }
                    }
                }
            } else {
                i = i - 1;
                proof {
                    assert(all_term(s@, i as int, i + c));
                }
            }
        } else {
            c = 0;
            i = i - 1;
            proof {
                assert forall|i2: int| i2 >= i implies !has_term_run_at(s@, i2) by {
                    if i2 == i {
                        assert(s@[i2] != term_char());
                    }
                }
            }
        }
    }
    if !found {
        proof {
            assert(forall|i2: int| 0 <= i2 ==> !has_term_run_at(s@, i2));
        }
        return 0;
    }
    // Extend left over the rest of the run to its start.
    let mut r = q;
    while r > 0 && s.get_char(r - 1) == '!'
        invariant
            n == s@.len(),
            s@ == msg@,
            r <= q,
            q < n,
            all_term(s@, r as int, q as int),
            has_term_run_at(s@, q as int),
            forall|i2: int| i2 > q ==> !has_term_run_at(s@, i2),
        decreases r,
    {
        r = r - 1;
    }
    proof {
        assert(r == 0 || s@[r - 1] != term_char());
        assert(has_term_run_at(s@, r as int)) by {
            assert(all_term(s@, r as int, q as int));
            assert(s@[q as int] == term_char() && s@[q + 1] == term_char() && s@[q + 2]
                == term_char());
        }
        assert forall|i2: int| i2 > r && #[trigger] has_term_run_at(s@, i2) implies all_term(
            s@,
            r as int,
            i2,
        ) by {
            assert(i2 <= q);
            assert forall|t: int| r <= t < i2 implies s@[t] == term_char() by {
                if t < q {
                    assert(all_term(s@, r as int, q as int));
                } else {
                    assert(t == q);
                }
            }
        }
    }
    r
}

/// The framed message held by a raw buffer: everything before the
/// last terminator run, or the empty message when no run terminates
/// the buffer.
pub fn parse_message(raw: &String) -> (r: String)
    ensures
        (exists|i: int| has_term_run_at(raw@, i)) ==> exists|b: int|
            is_frame_boundary(raw@, b) && r@ == raw@.subrange(0, b),
        !(exists|i: int| has_term_run_at(raw@, i)) ==> r@ == Seq::<char>::empty(),
{
    let end = find_stream_end_chars(raw.clone());
    let r = raw.as_str().substring_char(0, end).to_owned();
    proof {
        if exists|i: int| has_term_run_at(raw@, i) {
            assert(is_frame_boundary(raw@, end as int) && r@ == raw@.subrange(0, end as int));
        } else {
            assert(r@ =~= Seq::<char>::empty());
        }
    }
    r
}

/// Turn a framed message into its input events: one key press per
/// character, in message order.
pub fn handle_msg(msg: String) -> (events: Vec<Input>)
    ensures
        events@.len() == msg@.len(),
        forall|i: int| 0 <= i < msg@.len() ==> events@[i] == Input::Key(msg@[i]),
{
    let s = msg.as_str();
    let n = s.unicode_len();
    let mut events: Vec<Input> = Vec::new();
    let mut i: usize = 0;
    while i < n
        invariant
            n == s@.len(),
            s@ == msg@,
            i <= n,
            events@.len() == i,
            forall|j: int| 0 <= j < i ==> events@[j] == Input::Key(msg@[j]),
        decreases n - i,
    {
        events.push(Input::Key(s.get_char(i)));
        i = i + 1;
    }
    events
}

} // verus!
