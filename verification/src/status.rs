//! Status-line decoding.
//!
//! Every response ends in a status line `error id=<code> msg=<text>`. Code 0
//! is success: the caller receives the text before the status line as the
//! result body. Any other code is a protocol error carrying that code. A
//! response with no status line at all is an error of its own.

use crate::numfmt::spec_parse_i64;
use crate::strutil::split_on;
use crate::strutil::split_str;
use crate::strutil::str_starts_with;
use crate::strutil::trim;
use crate::strutil::trim_spec;
use crate::numfmt::parse_i64;
use vstd::prelude::*;

verus! {

/// A decoded status line: numeric code and message text.
#[derive(Debug, Clone)]
pub struct QueryStatus {
    pub id: i64,
    pub msg: String,
}

/// Everything that can go wrong when a response is decoded or a typed value
/// is read out of it.
#[derive(Debug, Clone)]
pub enum QueryError {
    /// The response carried no status line.
    EmptyResponse,
    /// The status line did not parse.
    MalformedStatus,
    /// The status line carried a nonzero code.
    Protocol { code: i64, message: String },
    /// A data row was missing a required key or its value did not parse.
    Field,
    /// The response carried no data rows though some were required.
    NoData,
}

impl QueryError {
    /// The protocol error code, or -1 for errors that carry none.
    pub fn code(&self) -> (r: i64)
        ensures
            r == match self {
                QueryError::Protocol { code, .. } => *code,
                _ => -1i64,
            },
    {
        match self {
            QueryError::Protocol { code, .. } => *code,
            _ => -1,
        }
    }
}

/// Whether a raw response line is the status line: once trimmed it starts
/// with `error` and a space.
pub open spec fn is_status_line(line: Seq<char>) -> bool {
    "error "@.is_prefix_of(trim_spec(line))
}

/// Index of the first status line, or `lines.len()` when there is none.
pub open spec fn first_status(lines: Seq<Seq<char>>) -> int
    decreases lines.len(),
{
    if lines.len() == 0 {
        0
    } else if is_status_line(lines[0]) {
        0
    } else {
        1 + first_status(lines.drop_first())
    }
}

proof fn lemma_first_status(lines: Seq<Seq<char>>)
    ensures
        0 <= first_status(lines) <= lines.len(),
        first_status(lines) < lines.len() ==> is_status_line(lines[first_status(lines)]),
        forall|j: int| 0 <= j < first_status(lines) ==> !is_status_line(lines[j]),
    decreases lines.len(),
{
    if lines.len() > 0 && !is_status_line(lines[0]) {
        lemma_first_status(lines.drop_first());
        assert forall|j: int| 0 <= j < first_status(lines) implies !is_status_line(lines[j]) by {
            if j > 0 {
                assert(!is_status_line(lines.drop_first()[j - 1]));
            }
        }
    }
}

/// Index of the first token starting with `p`, or `tokens.len()`.
pub open spec fn first_with_prefix(tokens: Seq<Seq<char>>, p: Seq<char>) -> int
    decreases tokens.len(),
{
    if tokens.len() == 0 {
        0
    } else if p.is_prefix_of(tokens[0]) {
        0
    } else {
        1 + first_with_prefix(tokens.drop_first(), p)
    }
}

proof fn lemma_first_with_prefix(tokens: Seq<Seq<char>>, p: Seq<char>)
    ensures
        0 <= first_with_prefix(tokens, p) <= tokens.len(),
        first_with_prefix(tokens, p) < tokens.len() ==> p.is_prefix_of(
            tokens[first_with_prefix(tokens, p)],
        ),
        forall|j: int| 0 <= j < first_with_prefix(tokens, p) ==> !p.is_prefix_of(tokens[j]),
    decreases tokens.len(),
{
    if tokens.len() > 0 && !p.is_prefix_of(tokens[0]) {
        lemma_first_with_prefix(tokens.drop_first(), p);
        assert forall|j: int| 0 <= j < first_with_prefix(tokens, p) implies !p.is_prefix_of(
            tokens[j],
        ) by {
            if j > 0 {
                assert(!p.is_prefix_of(tokens.drop_first()[j - 1]));
            }
        }
    }
}

/// The space-separated tokens after the `error ` marker of a trimmed status
/// line.
pub open spec fn status_tokens(line: Seq<char>) -> Seq<Seq<char>> {
    split_on(line.skip(6), ' ')
}

/// The parsed code and message of a trimmed status line, when well-formed:
/// the line starts with `error `, its first `id=` token parses as a number,
/// and the message is the first `msg=` token's value (empty when absent).
pub open spec fn spec_parse_status(line: Seq<char>) -> Option<(int, Seq<char>)> {
    if !"error "@.is_prefix_of(line) {
        None
    } else {
        let toks = status_tokens(line);
        let k = first_with_prefix(toks, "id="@);
        if k == toks.len() {
            None
        } else {
            match spec_parse_i64(toks[k].skip(3)) {
                Some(code) => {
                    let m = first_with_prefix(toks, "msg="@);
                    let msg = if m == toks.len() {
                        Seq::<char>::empty()
                    } else {
                        toks[m].skip(4)
                    };
                    Some((code, msg))
                },
                None => None,
            }
        }
    }
}

fn find_prefixed(tokens: &Vec<String>, p: &str) -> (r: Option<usize>)
    ensures
        ({
            let views = tokens@.map_values(|t: String| t@);
            match r {
                Some(k) => k < tokens@.len() && first_with_prefix(views, p@) == k,
                None => first_with_prefix(views, p@) == views.len(),
            }
        }),
{
    let ghost views = tokens@.map_values(|t: String| t@);
    proof {
        lemma_first_with_prefix(views, p@);
    }
    let mut k: usize = 0;
    while k < tokens.len()
        invariant
            0 <= k <= tokens@.len(),
            views == tokens@.map_values(|t: String| t@),
            forall|j: int| 0 <= j < k ==> !p@.is_prefix_of(views[j]),
            first_with_prefix(views, p@) >= k || first_with_prefix(views, p@) == views.len(),
        decreases tokens@.len() - k,
    {
        proof {
            lemma_first_with_prefix(views, p@);
        }
        if str_starts_with(tokens[k].as_str(), p) {
            proof {
                assert(views[k as int] == tokens@[k as int]@);
                let f = first_with_prefix(views, p@);
                if f > k {
                    assert(!p@.is_prefix_of(views[k as int]));
                }
                if f == views.len() && (k as int) < views.len() {
                    assert(!p@.is_prefix_of(views[k as int]));
                }
            }
            return Some(k);
        }
        proof {
            assert(views[k as int] == tokens@[k as int]@);
            let f = first_with_prefix(views, p@);
            if f == k {
                assert(p@.is_prefix_of(views[k as int]));
            }
        }
        k = k + 1;
    }
    None
}

/// Parse a trimmed status line into its code and message.
pub fn parse_status_line(line: &str) -> (r: Option<QueryStatus>)
    ensures
        match r {
            Some(st) => spec_parse_status(line@) == Some((st.id as int, st.msg@)),
            None => spec_parse_status(line@) is None,
        },
{
    if !str_starts_with(line, "error ") {
        return None;
    }
    proof {
        reveal_strlit("error ");
    }
    let n = line.unicode_len();
    let rest = line.substring_char(6, n);
    proof {
        assert(rest@ =~= line@.skip(6));
    }
    let toks = split_str(rest, ' ');
    let ghost views = toks@.map_values(|t: String| t@);
    let id: i64 = match find_prefixed(&toks, "id=") {
        Some(k) => {
            let tok = toks[k].as_str();
            let tn = tok.unicode_len();
            proof {
                reveal_strlit("id=");
                assert(views[k as int] == toks@[k as int]@);
                lemma_first_with_prefix(views, "id="@);
                assert("id="@.is_prefix_of(tok@));
            }
            let val = tok.substring_char(3, tn);
            proof {
                assert(val@ =~= tok@.skip(3));
            }
            match parse_i64(val) {
                Some(v) => v,
                None => {
                    return None;
                },
            }
        },
        None => {
            return None;
        },
    };
    let msg: String = match find_prefixed(&toks, "msg=") {
        Some(m) => {
            let tok = toks[m].as_str();
            let tn = tok.unicode_len();
            proof {
                reveal_strlit("msg=");
                assert(views[m as int] == toks@[m as int]@);
                lemma_first_with_prefix(views, "msg="@);
                assert("msg="@.is_prefix_of(tok@));
            }
            let val = tok.substring_char(4, tn);
            proof {
                assert(val@ =~= tok@.skip(4));
            }
            val.to_owned()
        },
        None => String::new(),
    };
    Some(QueryStatus { id, msg })
}

/// The lines joined back with the separator, undoing a split.
pub open spec fn join_with(pieces: Seq<Seq<char>>, sep: char) -> Seq<char>
    decreases pieces.len(),
{
    if pieces.len() == 0 {
        Seq::empty()
    } else if pieces.len() == 1 {
        pieces[0]
    } else {
        pieces[0] + seq![sep] + join_with(pieces.drop_first(), sep)
    }
}

pub proof fn lemma_join_with_push(pieces: Seq<Seq<char>>, sep: char, x: Seq<char>)
    ensures
        join_with(pieces.push(x), sep) == if pieces.len() == 0 {
            x
        } else {
            join_with(pieces, sep) + seq![sep] + x
        },
    decreases pieces.len(),
{
    let p = pieces.push(x);
    if pieces.len() == 0 {
        assert(p.len() == 1);
        assert(p[0] == x);
    } else {
        assert(p[0] == pieces[0]);
        assert(p.drop_first() =~= pieces.drop_first().push(x));
        lemma_join_with_push(pieces.drop_first(), sep, x);
        if pieces.len() == 1 {
            assert(join_with(p, sep) == p[0] + seq![sep] + join_with(p.drop_first(), sep));
            assert(join_with(p.drop_first(), sep) == x);
        } else {
            assert(join_with(p, sep) == pieces[0] + seq![sep] + (join_with(
                pieces.drop_first(),
                sep,
            ) + seq![sep] + x));
            assert(pieces[0] + seq![sep] + (join_with(pieces.drop_first(), sep) + seq![sep] + x)
                =~= (pieces[0] + seq![sep] + join_with(pieces.drop_first(), sep)) + seq![sep] + x);
        }
    }
}

/// Decode a raw response: find the status line, and on code 0 hand back the
/// data that preceded it.
pub fn decode_status(content: &str) -> (r: Result<String, QueryError>)
    ensures
        ({
            let lines = split_on(content@, '\n');
            let k = first_status(lines);
            if k == lines.len() {
                r matches Err(QueryError::EmptyResponse)
            } else {
                match spec_parse_status(trim_spec(lines[k])) {
                    Some((code, msg)) => {
                        if code == 0 {
                            r matches Ok(body) && body@ == join_with(lines.take(k), '\n')
                        } else {
                            r matches Err(QueryError::Protocol { code: c, message: m }) && c == code
                                && m@ == msg
                        }
                    },
                    None => r matches Err(QueryError::MalformedStatus),
                }
            }
        }),
{
    let lines = split_str(content, '\n');
    let ghost views = lines@.map_values(|t: String| t@);
    let ghost all = split_on(content@, '\n');
    proof {
        assert(views == all);
        lemma_first_status(all);
    }
    let mut body = String::new();
    let mut m: usize = 0;
    proof {
        assert(all.take(0) =~= Seq::<Seq<char>>::empty());
    }
    while m < lines.len()
        invariant
            0 <= m <= lines@.len(),
            views == lines@.map_values(|t: String| t@),
            views == all,
            all == split_on(content@, '\n'),
            forall|j: int| 0 <= j < m ==> !is_status_line(all[j]),
            body@ == join_with(all.take(m as int), '\n'),
        decreases lines@.len() - m,
    {
        proof {
            assert(views[m as int] == lines@[m as int]@);
        }
        let t = trim(lines[m].as_str());
        if str_starts_with(t, "error ") {
            proof {
                lemma_first_status(all);
                let k = first_status(all);
                assert(is_status_line(all[m as int]));
                if k < m {
                    assert(!is_status_line(all[k]));
                }
                assert(k == m);
            }
            return match parse_status_line(t) {
                Some(st) => {
                    if st.id == 0 {
                        Ok(body)
                    } else {
                        Err(QueryError::Protocol { code: st.id, message: st.msg })
                    }
                },
                None => Err(QueryError::MalformedStatus),
            };
        }
        if m > 0 {
            body.append("\n");
            proof {
                reveal_strlit("\n");
                assert("\n"@ =~= seq!['\n']);
            }
        }
        body.append(lines[m].as_str());
        proof {
            assert(all.take(m + 1 as int) =~= all.take(m as int).push(all[m as int]));
            lemma_join_with_push(all.take(m as int), '\n', all[m as int]);
            if m > 0 {
                assert(all.take(m as int).len() == m);
            }
        }
        m = m + 1;
    }
    proof {
        lemma_first_status(all);
        let k = first_status(all);
        if k < all.len() {
            assert(!is_status_line(all[k]));
        }
    }
    Err(QueryError::EmptyResponse)
}

/// Whether an accumulating read buffer holds a complete response: the last
/// read came up short, or the buffer shows the status marker and ends with
/// the line terminator.
pub fn response_complete(accumulated: &str, read_size: usize, buffer_size: usize) -> (r: bool)
    ensures
        r == (read_size < buffer_size || (crate::strutil::contains_sub(
            accumulated@,
            "error id="@,
        ) && "\n\r"@.is_suffix_of(accumulated@))),
{
    read_size < buffer_size || (crate::strutil::str_contains(accumulated, "error id=")
        && crate::strutil::str_ends_with(accumulated, "\n\r"))
}

} // verus!
