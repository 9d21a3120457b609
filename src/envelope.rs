//! Extraction of the address that a MAIL or RCPT argument carries between
//! angle brackets.

use vstd::prelude::*;

verus! {

/// `e` is the position of the first `>` in `s`.
pub open spec fn first_close(s: Seq<char>, e: int) -> bool {
    &&& 0 <= e < s.len()
    &&& s[e] == '>'
    &&& forall|k: int| 0 <= k < e ==> s[k] != '>'
}

/// `o` is the position of the last `<` before position `e`.
pub open spec fn last_open_before(s: Seq<char>, o: int, e: int) -> bool {
    &&& 0 <= o < e <= s.len()
    &&& s[o] == '<'
    &&& forall|k: int| o < k < e ==> s[k] != '<'
}

/// Some `@` lies strictly between positions `o` and `e`.
pub open spec fn at_between(s: Seq<char>, o: int, e: int) -> bool {
    exists|a: int| o < a < e && #[trigger] s[a] == '@'
}

/// `t` holds an `@`.
pub open spec fn has_at(t: Seq<char>) -> bool {
    exists|a: int| 0 <= a < t.len() && #[trigger] t[a] == '@'
}

/// `s[o]` and `s[e]` are the brackets that delimit an address: `e` is the first `>`,
/// `o` the last `<` before it, the span between them is not empty, and an `@`
/// lies between them.
pub open spec fn brackets(s: Seq<char>, o: int, e: int) -> bool {
    &&& first_close(s, e)
    &&& last_open_before(s, o, e)
    &&& o + 1 < e
    &&& at_between(s, o, e)
}

/// The address that `s` holds between angle brackets, verbatim; `None` when `s`
/// holds none.
pub open spec fn address_in(s: Seq<char>) -> Option<Seq<char>> {
    if exists|o: int, e: int| brackets(s, o, e) {
        let (o, e) = choose|o: int, e: int| brackets(s, o, e);
        Some(s.subrange(o + 1, e))
    } else {
        None
    }
}

/// At most one pair of positions delimits an address.
proof fn lemma_brackets_unique(s: Seq<char>, o1: int, e1: int, o2: int, e2: int)
    requires
        brackets(s, o1, e1),
        brackets(s, o2, e2),
    ensures
        o1 == o2,
        e1 == e2,
{
    if e1 < e2 {
        assert(s[e1] != '>');
    } else if e2 < e1 {
        assert(s[e2] != '>');
    }
    if o1 < o2 {
        assert(s[o2] != '<');
    } else if o2 < o1 {
        assert(s[o1] != '<');
    }
}

/// The address is the text between the brackets that `brackets` picks out.
proof fn lemma_address_at(s: Seq<char>, o: int, e: int)
    requires
        brackets(s, o, e),
    ensures
        address_in(s) == Some(s.subrange(o + 1, e)),
{
    let (o2, e2) = choose|o2: int, e2: int| brackets(s, o2, e2);
    lemma_brackets_unique(s, o, e, o2, e2);
}

/// An extracted address is never empty, holds an `@`, and holds no angle bracket.
pub proof fn lemma_address_shape(s: Seq<char>)
    ensures
        address_in(s) matches Some(a) ==> {
            &&& a.len() > 0
            &&& has_at(a)
            &&& forall|k: int| 0 <= k < a.len() ==> a[k] != '<' && a[k] != '>'
        },
{
    if exists|o: int, e: int| brackets(s, o, e) {
        let (o, e) = choose|o: int, e: int| brackets(s, o, e);
        lemma_address_at(s, o, e);
        let a = s.subrange(o + 1, e);
        let x = choose|x: int| o < x < e && #[trigger] s[x] == '@';
        assert(a[x - o - 1] == '@');
        assert forall|k: int| 0 <= k < a.len() implies a[k] != '<' && a[k] != '>' by {
            assert(a[k] == s[k + o + 1]);
        }
    }
}

/// An address that holds an `@` and no angle bracket comes back unchanged when
/// it is written between `<` and `>` and extracted again.
pub proof fn lemma_extract_bracketed(a: Seq<char>)
    requires
        exists|i: int| 0 <= i < a.len() && a[i] == '@',
        forall|i: int| 0 <= i < a.len() ==> a[i] != '<' && a[i] != '>',
    ensures
        address_in(seq!['<'] + a + seq!['>']) == Some(a),
{
    let s = seq!['<'] + a + seq!['>'];
    let e = (a.len() + 1) as int;
    let i = choose|i: int| 0 <= i < a.len() && a[i] == '@';
    assert(s[i + 1] == '@');
    assert(forall|k: int| 0 < k < e ==> s[k] == a[k - 1]);
    assert(brackets(s, 0, e));
    lemma_address_at(s, 0, e);
    assert(s.subrange(1, e) =~= a);
}

/// Returns the text between the angle brackets of `email`, verbatim, when it
/// holds an address. The span ends at the first `>` and starts after the last
/// `<` before it; it must not be empty and must hold an `@`.
pub fn extract_email(email: &str) -> (r: Option<&str>)
    ensures
        match r {
            Some(a) => address_in(email@) == Some(a@),
            None => address_in(email@) is None,
        },
        r matches Some(a) ==> a@.len() > 0 && has_at(a@),
{
    proof {
        lemma_address_shape(email@);
    }
    let ghost s = email@;
    let n = email.unicode_len();
    let mut at = false;
    let mut start: Option<usize> = None;
    let mut end: Option<usize> = None;
    let mut i: usize = 0;
    while i < n
        invariant
            s == email@,
            n == s.len(),
            i <= n,
            end is None || (end == Some(i) && i < n && s[i as int] == '>'),
            forall|k: int| 0 <= k < i ==> s[k] != '>',
            match start {
                Some(st) => 1 <= st <= i && last_open_before(s, st - 1, i as int),
                None => forall|k: int| 0 <= k < i ==> s[k] != '<',
            },
            start is None ==> !at,
            start matches Some(st) ==> (at <==> at_between(s, st - 1, i as int)),
        ensures
            end is None ==> i == n,
        decreases n - i,
    {
        let c = email.get_char(i);
        if c == '>' {
            end = Some(i);
            break;
        }
        if c == '<' {
            start = Some(i + 1);
            at = false;
        } else if c == '@' {
            if start.is_some() {
                assert(s[i as int] == '@');
                at = true;
            }
        }
        assert(start matches Some(st) ==> (at <==> at_between(s, st - 1, i + 1))) by {
            if let Some(st) = start {
                if at_between(s, st - 1, i + 1) && !at_between(s, st - 1, i as int) {
                    let a = choose|a: int| st - 1 < a < i + 1 && #[trigger] s[a] == '@';
                    assert(a == i);
                }
            }
        }
        i = i + 1;
    }
    match (start, end) {
        (Some(st), Some(en)) => {
            if at && st < en {
                proof {
                    assert(brackets(s, st - 1, en as int));
                    lemma_address_at(s, st - 1, en as int);
                }
                Some(email.substring_char(st, en))
            } else {
                proof {
                    if exists|o: int, e: int| brackets(s, o, e) {
                        let (o, e) = choose|o: int, e: int| brackets(s, o, e);
                        assert(first_close(s, en as int));
                        if e < en {
                            assert(s[e] != '>');
                        } else if en < e {
                            assert(s[en as int] != '>');
                        }
                        if o < st - 1 {
                            assert(s[st - 1] != '<');
                        } else if st - 1 < o {
                            assert(s[o] != '<');
                        }
                    }
                }
                None
            }
        },
        _ => {
            proof {
                if exists|o: int, e: int| brackets(s, o, e) {
                    let (o, e) = choose|o: int, e: int| brackets(s, o, e);
                    if end is None {
                        assert(s[e] != '>');
                    } else {
                        assert(first_close(s, end.unwrap() as int));
                        if e < end.unwrap() {
                            assert(s[e] != '>');
                        } else if end.unwrap() < e {
                            assert(s[end.unwrap() as int] != '>');
                        }
                        assert(s[o] != '<');
                    }
                }
            }
            None
        },
    }
}

} // verus!
