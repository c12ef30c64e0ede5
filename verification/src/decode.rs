//! The literal decoder: strips the delimiter characters from a quoted
//! literal span and resolves backslash escapes.

use vstd::prelude::*;

verus! {

/// What decoding the interior of a literal yields: a backslash consumes
/// exactly the next character and emits it verbatim, every other
/// character is emitted as it stands. A backslash with no character
/// after it leaves the interior undecodable.
pub open spec fn unescape_spec(interior: Seq<char>) -> Option<Seq<char>>
    decreases interior.len(),
{
    if interior.len() == 0 {
        Some(Seq::empty())
    } else if interior[0] == '\\' {
        if interior.len() == 1 {
            None
        } else {
            match unescape_spec(interior.skip(2)) {
                Some(rest) => Some(seq![interior[1]] + rest),
                None => None,
            }
        }
    } else {
        match unescape_spec(interior.skip(1)) {
            Some(rest) => Some(seq![interior[0]] + rest),
            None => None,
        }
    }
}

/// Decode a quoted literal span: drop the opening and closing delimiter
/// characters and resolve every backslash escape to the escaped
/// character itself. Returns `None` exactly when a backslash stands
/// last before the closing delimiter, i.e. an escape with nothing to
/// escape.
pub fn unescape(text: &Vec<char>) -> (r: Option<Vec<char>>)
    requires
        text@.len() >= 2,
    ensures
        match r {
            Some(out) => unescape_spec(text@.subrange(1, text@.len() - 1)) == Some(out@),
            None => unescape_spec(text@.subrange(1, text@.len() - 1)) is None,
        },
{
    let interior_len = text.len() - 1;
    let mut out: Vec<char> = Vec::new();
    let mut i: usize = 1;
    while i < interior_len
        invariant
            1 <= i <= interior_len,
            interior_len == text@.len() - 1,
            text@.len() >= 2,
            unescape_spec(text@.subrange(1, interior_len as int)) matches Some(whole)
                ==> unescape_spec(text@.subrange(i as int, interior_len as int)) matches Some(rest)
                    && whole == out@ + rest,
            unescape_spec(text@.subrange(1, interior_len as int)) is None
                ==> unescape_spec(text@.subrange(i as int, interior_len as int)) is None,
        decreases interior_len - i,
    {
        let ghost pre = text@.subrange(i as int, interior_len as int);
        let c = text[i];
        if c == '\\' {
            if i + 1 >= interior_len {
                proof {
                    assert(pre[0] == '\\');
                    assert(pre.len() == 1);
                }
                return None;
            }
            out.push(text[i + 1]);
            proof {
                assert(pre[0] == '\\');
                assert(pre.len() >= 2);
                assert(pre[1] == text@[i + 1]);
                assert(pre.skip(2) =~= text@.subrange(i + 2, interior_len as int));
            }
            i = i + 2;
        } else {
            out.push(c);
            proof {
                assert(pre[0] == c);
                assert(pre.skip(1) =~= text@.subrange(i + 1, interior_len as int));
            }
            i = i + 1;
        }
    }
    proof {
        assert(text@.subrange(i as int, interior_len as int).len() == 0);
        assert(unescape_spec(text@.subrange(i as int, interior_len as int)) == Some(
            Seq::<char>::empty(),
        ));
        if unescape_spec(text@.subrange(1, interior_len as int)) is Some {
            assert(unescape_spec(text@.subrange(1, interior_len as int)).unwrap() =~= out@
                + Seq::<char>::empty());
            assert(out@ + Seq::<char>::empty() =~= out@);
        }
    }
    Some(out)
}

} // verus!
