//! Escaping of free text embedded in protocol commands.
//!
//! Backslash, space and forward slash are replaced by `\\`, `\s` and `\/`;
//! the backslash is handled first, so the escaped form is unambiguous and
//! the inverse mapping recovers the original text exactly.

use vstd::prelude::*;

verus! {

/// The escaped form of a single character.
pub open spec fn escape_char(c: char) -> Seq<char> {
    if c == '\\' {
        seq!['\\', '\\']
    } else if c == ' ' {
        seq!['\\', 's']
    } else if c == '/' {
        seq!['\\', '/']
    } else {
        seq![c]
    }
}

/// The escaped form of a whole string: each character escaped in order.
pub open spec fn escape_seq(s: Seq<char>) -> Seq<char>
    decreases s.len(),
{
    if s.len() == 0 {
        Seq::empty()
    } else {
        escape_char(s[0]) + escape_seq(s.drop_first())
    }
}

/// The inverse mapping: `None` when an escape sequence is truncated or names
/// no escapable character.
pub open spec fn unescape_seq(s: Seq<char>) -> Option<Seq<char>>
    decreases s.len(),
{
    if s.len() == 0 {
        Some(Seq::empty())
    } else if s[0] == '\\' {
        if s.len() >= 2 {
            let decoded = if s[1] == '\\' {
                Some('\\')
            } else if s[1] == 's' {
                Some(' ')
            } else if s[1] == '/' {
                Some('/')
            } else {
                None
            };
            match decoded {
                Some(c) => match unescape_seq(s.skip(2)) {
                    Some(rest) => Some(seq![c] + rest),
                    None => None,
                },
                None => None,
            }
        } else {
            None
        }
    } else {
        match unescape_seq(s.drop_first()) {
            Some(rest) => Some(seq![s[0]] + rest),
            None => None,
        }
    }
}

proof fn lemma_escape_seq_push(s: Seq<char>, c: char)
    ensures
        escape_seq(s.push(c)) == escape_seq(s) + escape_char(c),
    decreases s.len(),
{
    let t = s.push(c);
    assert(t.len() == s.len() + 1);
    assert(t[0] == if s.len() == 0 { c } else { s[0] });
    if s.len() == 0 {
        assert(t.drop_first() =~= Seq::<char>::empty());
        assert(escape_seq(t) == escape_char(t[0]) + escape_seq(t.drop_first()));
        assert(escape_seq(Seq::<char>::empty()) =~= Seq::<char>::empty());
        assert(escape_char(c) + Seq::<char>::empty() =~= escape_char(c));
        assert(escape_seq(s) =~= Seq::<char>::empty());
        assert(Seq::<char>::empty() + escape_char(c) =~= escape_char(c));
    } else {
        assert(t.drop_first() =~= s.drop_first().push(c));
        lemma_escape_seq_push(s.drop_first(), c);
        assert(escape_seq(t) == escape_char(s[0]) + (escape_seq(s.drop_first()) + escape_char(c)));
        assert(escape_char(s[0]) + (escape_seq(s.drop_first()) + escape_char(c)) =~= (escape_char(
            s[0],
        ) + escape_seq(s.drop_first())) + escape_char(c));
    }
}

/// Escape a string for embedding in a protocol command.
pub fn escape(s: &str) -> (r: String)
    ensures
        r@ == escape_seq(s@),
{
    let n = s.unicode_len();
    let mut out = String::new();
    let mut i: usize = 0;
    proof {
        assert(s@.subrange(0, 0) =~= Seq::<char>::empty());
    }
    while i < n
        invariant
            i <= n,
            n == s@.len(),
            out@ == escape_seq(s@.subrange(0, i as int)),
        decreases n - i,
    {
        let c = s.get_char(i);
        if c == '\\' {
            out.append("\\\\");
            proof {
                reveal_strlit("\\\\");
                assert("\\\\"@ =~= escape_char(c));
            }
        } else if c == ' ' {
            out.append("\\s");
            proof {
                reveal_strlit("\\s");
                assert("\\s"@ =~= escape_char(c));
            }
        } else if c == '/' {
            out.append("\\/");
            proof {
                reveal_strlit("\\/");
                assert("\\/"@ =~= escape_char(c));
            }
        } else {
            let piece = s.substring_char(i, i + 1);
            out.append(piece);
            proof {
                assert(piece@ =~= escape_char(c));
            }
        }
        proof {
            lemma_escape_seq_push(s@.subrange(0, i as int), c);
            assert(s@.subrange(0, i + 1 as int) =~= s@.subrange(0, i as int).push(c));
        }
        i = i + 1;
    }
    proof {
        assert(s@.subrange(0, n as int) =~= s@);
    }
    out
}

/// Undo [`escape`]; `None` when the input is not a well-formed escaped string.
pub fn unescape(s: &str) -> (r: Option<String>)
    ensures
        match r {
            Some(out) => unescape_seq(s@) == Some(out@),
            None => unescape_seq(s@) is None,
        },
{
    let n = s.unicode_len();
    let mut out = String::new();
    let mut i: usize = 0;
    proof {
        assert(s@.skip(0) =~= s@);
        if let Some(rest) = unescape_seq(s@) {
            assert(Seq::<char>::empty() + rest =~= rest);
        }
    }
    while i < n
        invariant
            i <= n,
            n == s@.len(),
            unescape_seq(s@) == match unescape_seq(s@.skip(i as int)) {
                Some(rest) => Some(out@ + rest),
                None => None::<Seq<char>>,
            },
        decreases n - i,
    {
        let ghost pending = s@.skip(i as int);
        let ghost out0 = out@;
        let c = s.get_char(i);
        proof {
            assert(pending.len() == n - i);
            assert(pending[0] == c);
        }
        if c == '\\' {
            if i + 1 >= n {
                proof {
                    assert(pending.len() == 1);
                    assert(unescape_seq(pending) is None);
                }
                return None;
            }
            let d = s.get_char(i + 1);
            proof {
                assert(pending.len() >= 2);
                assert(pending[1] == d);
                assert(pending.skip(2) =~= s@.skip(i + 2 as int));
            }
            let decoded: &str = if d == '\\' {
                "\\"
            } else if d == 's' {
                " "
            } else if d == '/' {
                "/"
            } else {
                proof {
                    assert(unescape_seq(pending) is None);
                }
                return None;
            };
            out.append(decoded);
            proof {
                reveal_strlit("\\");
                reveal_strlit(" ");
                reveal_strlit("/");
                let dc: char = if d == '\\' {
                    '\\'
                } else if d == 's' {
                    ' '
                } else {
                    '/'
                };
                assert(decoded@ =~= seq![dc]);
                if let Some(r) = unescape_seq(s@.skip(i + 2 as int)) {
                    assert(unescape_seq(pending) == Some(seq![dc] + r));
                    assert(out0 + (seq![dc] + r) =~= (out0 + seq![dc]) + r);
                } else {
                    assert(unescape_seq(pending) is None);
                }
            }
            i = i + 2;
        } else {
            let piece = s.substring_char(i, i + 1);
            out.append(piece);
            proof {
                assert(piece@ =~= seq![c]);
                assert(pending.drop_first() =~= s@.skip(i + 1 as int));
                if let Some(r) = unescape_seq(s@.skip(i + 1 as int)) {
                    assert(unescape_seq(pending) == Some(seq![c] + r));
                    assert(out0 + (seq![c] + r) =~= (out0 + seq![c]) + r);
                } else {
                    assert(unescape_seq(pending) is None);
                }
            }
            i = i + 1;
        }
    }
    proof {
        assert(s@.skip(n as int) =~= Seq::<char>::empty());
        assert(unescape_seq(s@.skip(n as int)) == Some(Seq::<char>::empty()));
        assert(out@ + Seq::<char>::empty() =~= out@);
    }
    Some(out)
}

/// Escaping round-trips: unescaping an escaped string always succeeds and
/// yields the original text.
pub proof fn lemma_unescape_escape(s: Seq<char>)
    ensures
        unescape_seq(escape_seq(s)) == Some(s),
    decreases s.len(),
{
    if s.len() == 0 {
        assert(escape_seq(s) =~= Seq::<char>::empty());
        assert(Seq::<char>::empty() =~= s);
    } else {
        let c = s[0];
        let rest = s.drop_first();
        lemma_unescape_escape(rest);
        let e = escape_seq(s);
        assert(e =~= escape_char(c) + escape_seq(rest));
        if c == '\\' || c == ' ' || c == '/' {
            assert(escape_char(c).len() == 2);
            assert(e[0] == '\\');
            assert(e.len() >= 2);
            assert(e.skip(2) =~= escape_seq(rest));
            assert(seq![c] + rest =~= s);
        } else {
            assert(escape_char(c) =~= seq![c]);
            assert(e[0] == c);
            assert(e.drop_first() =~= escape_seq(rest));
            assert(seq![c] + rest =~= s);
        }
    }
}

} // verus!
