//! Connection-side helpers: the access token of a query string and the
//! application side of a connection.

use vstd::prelude::*;
use crate::bot_map::BotMap;
use crate::echo::{EchoS, seq_tag, EchoInner};
use crate::error::{WalleError, WalleResult};
use crate::structs::{Selft, Status};
use crate::text::{decimal, push_char, str_eq};

verus! {

/// Log target name of the connection code.
pub const OBC: &'static str = "Walle-OBC";

/// The parts of `s` between the separators `c`, in order; there is one
/// more part than there are separators.
pub open spec fn split_on(s: Seq<char>, c: char) -> Seq<Seq<char>>
    decreases s.len(),
{
    if s.len() == 0 {
        seq![Seq::<char>::empty()]
    } else {
        let rest = split_on(s.drop_last(), c);
        if s.last() == c {
            rest.push(Seq::<char>::empty())
        } else {
            rest.update(rest.len() - 1, rest.last().push(s.last()))
        }
    }
}

/// The index of the first `=` in `p`, if any.
pub open spec fn eq_index(p: Seq<char>) -> Option<int>
    decreases p.len(),
{
    if p.len() == 0 {
        None
    } else if p[0] == '=' {
        Some(0)
    } else {
        match eq_index(p.drop_first()) {
            Some(i) => Some(i + 1),
            None => None,
        }
    }
}

/// The token of the last part whose key is `access_token`: the text after
/// that part's first `=`.
pub open spec fn last_token(parts: Seq<Seq<char>>) -> Option<Seq<char>>
    decreases parts.len(),
{
    if parts.len() == 0 {
        None
    } else {
        let p = parts.last();
        match eq_index(p) {
            Some(i) => if p.subrange(0, i) == "access_token"@ {
                Some(p.subrange(i + 1, p.len() as int))
            } else {
                last_token(parts.drop_last())
            },
            None => last_token(parts.drop_last()),
        }
    }
}

/// Every part holds a `=`.
pub open spec fn all_pairs(parts: Seq<Seq<char>>) -> bool {
    forall|i: int| 0 <= i < parts.len() ==> #[trigger] eq_index(parts[i]) is Some
}

/// The access token of a query string: the query, or the empty string, is
/// split on `&`; where some part holds no `=` there is none; else it is
/// the value of the last `access_token` key.
pub open spec fn query_token(query: Option<Seq<char>>) -> Option<Seq<char>> {
    let parts = split_on(query.unwrap_or(Seq::empty()), '&');
    if all_pairs(parts) { last_token(parts) } else { None }
}

proof fn lemma_split_nonempty(s: Seq<char>, c: char)
    ensures
        split_on(s, c).len() > 0,
    decreases s.len(),
{
    if s.len() > 0 {
        lemma_split_nonempty(s.drop_last(), c);
    }
}

/// The first `=` of `p` and whether `p` is an `access_token` pair.
fn scan_part(p: &str) -> (r: Option<(usize, bool)>)
    ensures
        match r {
            Some((i, is_token)) => eq_index(p@) == Some(i as int) && i < p@.len()
                && is_token == (p@.subrange(0, i as int) == "access_token"@),
            None => eq_index(p@) is None,
        },
{
    let n = p.unicode_len();
    let mut i: usize = 0;
    while i < n
        invariant
            n == p@.len(),
            i <= n,
            forall|j: int| 0 <= j < i ==> p@[j] != '=',
        decreases n - i,
    {
        if p.get_char(i) == '=' {
            proof { lemma_eq_index(p@, i as int); }
            let key = p.substring_char(0, i);
            let is_token = str_eq(key, "access_token");
            return Some((i, is_token));
        }
        i = i + 1;
    }
    proof { lemma_no_eq(p@); }
    None
}

proof fn lemma_eq_index(p: Seq<char>, i: int)
    requires
        0 <= i < p.len(),
        p[i] == '=',
        forall|j: int| 0 <= j < i ==> p[j] != '=',
    ensures
        eq_index(p) == Some(i),
    decreases p.len(),
{
    if i > 0 {
        lemma_eq_index(p.drop_first(), i - 1);
    }
}

proof fn lemma_no_eq(p: Seq<char>)
    requires
        forall|j: int| 0 <= j < p.len() ==> p[j] != '=',
    ensures
        eq_index(p) is None,
    decreases p.len(),
{
    if p.len() > 0 {
        lemma_no_eq(p.drop_first());
    }
}

/// The access token of a query string.
pub fn check_query(query: Option<&str>) -> (r: Option<String>)
    ensures
        match r {
            Some(t) => query_token(match query { Some(q) => Some(q@), None => None }) == Some(t@),
            None => query_token(match query { Some(q) => Some(q@), None => None }) is None,
        },
{
    let q: &str = match query {
        Some(q) => q,
        None => "",
    };
    let ghost qs = q@;
    proof { reveal_strlit(""); }
    assert(match query { Some(x) => Some(x@), None => None::<Seq<char>> }.unwrap_or(Seq::empty()) == qs);
    let n = q.unicode_len();
    let mut cur = String::new();
    let mut all_ok = true;
    let mut tok: Option<String> = None;
    let mut i: usize = 0;
    assert(qs.take(0) =~= Seq::<char>::empty());
    while i < n
        invariant
            n == qs.len(),
            i <= n,
            qs == q@,
            cur@ == split_on(qs.take(i as int), '&').last(),
            split_on(qs.take(i as int), '&').len() > 0,
            all_ok == all_pairs(split_on(qs.take(i as int), '&').drop_last()),
            match tok {
                Some(t) => last_token(split_on(qs.take(i as int), '&').drop_last()) == Some(t@),
                None => last_token(split_on(qs.take(i as int), '&').drop_last()) is None,
            },
        decreases n - i,
    {
        let c = q.get_char(i);
        let ghost pre = split_on(qs.take(i as int), '&');
        proof {
            assert(qs.take(i + 1).drop_last() =~= qs.take(i as int));
            assert(qs.take(i + 1).last() == c);
        }
        if c == '&' {
            let ghost done = pre;
            let scanned = scan_part(cur.as_str());
            match scanned {
                Some((k, is_token)) => {
                    if is_token {
                        let len = cur.unicode_len();
                let v = cur.as_str().substring_char(k + 1, len);
                        tok = Some(v.to_owned());
                    }
                },
                None => {
                    all_ok = false;
                },
            }
            proof {
                let post = split_on(qs.take(i + 1), '&');
                assert(post == pre.push(Seq::<char>::empty()));
                assert(post.drop_last() =~= pre);
                assert(pre.drop_last().push(pre.last()) =~= pre);
                assert(all_pairs(pre) == (all_pairs(pre.drop_last()) && eq_index(pre.last()) is Some)) by {
                    if all_pairs(pre.drop_last()) && eq_index(pre.last()) is Some {
                        assert forall|j: int| 0 <= j < pre.len() implies #[trigger] eq_index(pre[j]) is Some by {
                            if j < pre.len() - 1 { assert(pre[j] == pre.drop_last()[j]); }
                        }
                    }
                    if all_pairs(pre) {
                        assert forall|j: int| 0 <= j < pre.drop_last().len() implies #[trigger] eq_index(pre.drop_last()[j]) is Some by {
                            assert(pre.drop_last()[j] == pre[j]);
                        }
                        assert(eq_index(pre[pre.len() - 1]) is Some);
                    }
                }
            }
            cur = String::new();
            proof { lemma_split_nonempty(qs.take(i + 1), '&'); }
        } else {
            push_char(&mut cur, c);
            proof {
                let post = split_on(qs.take(i + 1), '&');
                assert(post == pre.update(pre.len() - 1, pre.last().push(c)));
                assert(post.drop_last() =~= pre.drop_last());
            }
        }
        i = i + 1;
    }
    assert(qs.take(n as int) =~= qs);
    let ghost parts = split_on(qs, '&');
    let scanned = scan_part(cur.as_str());
    match scanned {
        Some((k, is_token)) => {
            if is_token {
                let len = cur.unicode_len();
                let v = cur.as_str().substring_char(k + 1, len);
                tok = Some(v.to_owned());
            }
        },
        None => {
            all_ok = false;
        },
    }
    proof {
        assert(parts.drop_last().push(parts.last()) =~= parts);
        assert(all_pairs(parts) == (all_pairs(parts.drop_last()) && eq_index(parts.last()) is Some)) by {
            if all_pairs(parts.drop_last()) && eq_index(parts.last()) is Some {
                assert forall|j: int| 0 <= j < parts.len() implies #[trigger] eq_index(parts[j]) is Some by {
                    if j < parts.len() - 1 { assert(parts[j] == parts.drop_last()[j]); }
                }
            }
            if all_pairs(parts) {
                assert forall|j: int| 0 <= j < parts.drop_last().len() implies #[trigger] eq_index(parts.drop_last()[j]) is Some by {
                    assert(parts.drop_last()[j] == parts[j]);
                }
                assert(eq_index(parts[parts.len() - 1]) is Some);
            }
        }
    }
    if all_ok { tok } else { None }
}

} // verus!
