//! Text scanner: mention tokens and acknowledgement URLs found in a text body.

use vstd::prelude::*;
use vstd::string::*;

verus! {

/// Group `group` of each successive non-overlapping match of the regular
/// expression `pattern` in `text`, in the order of the matches; an entry is
/// `None` where the expression has no such group or the group took no part
/// in that match. The whole is `None` where `pattern` is not an expression
/// that the `regex` crate accepts.
pub uninterp spec fn regex_captures(pattern: Seq<char>, text: Seq<char>, group: nat) -> Option<Seq<Option<Seq<char>>>>;

/// The characters of each string.
pub open spec fn texts(v: Seq<String>) -> Seq<Seq<char>> {
    Seq::new(v.len(), |i: int| v[i]@)
}

/// The characters of each optional string.
pub open spec fn optional_texts(v: Seq<Option<String>>) -> Seq<Option<Seq<char>>> {
    Seq::new(
        v.len(),
        |i: int|
            match v[i] {
                Some(s) => Some(s@),
                None => None,
            },
    )
}

/// Calls `regex::Regex::new` on `pattern` and, where that succeeds,
/// `Regex::captures_iter` on `text`, taking group `group` of every match with
/// `Captures::get`. Believed, not proved: the result is what `regex_captures`
/// names for these arguments, and it is `None` exactly where the expression
/// is refused.
#[verifier::external_body]
fn captures(pattern: &str, text: &str, group: usize) -> (r: Option<Vec<Option<String>>>)
    ensures
        match r {
            Some(v) => regex_captures(pattern@, text@, group as nat) == Some(optional_texts(v@)),
            None => regex_captures(pattern@, text@, group as nat) is None,
        },
{
    match regex::Regex::new(pattern) {
        Ok(re) => Some(
            re.captures_iter(text).map(|c| c.get(group).map(|m| m.as_str().to_owned())).collect(),
        ),
        Err(_) => None,
    }
}

/// The expression for a mention: `@` and then one or more letters, digits,
/// hyphens, underscores or slashes, which form the token.
pub open spec fn mention_pattern() -> Seq<char> {
    "@([-\\w\\d/]+)"@
}

/// The expression for an acknowledgement: the marker, one space, and an
/// HTTP or HTTPS URL that runs up to the next space.
pub open spec fn acknowledge_pattern() -> Seq<char> {
    "acknowledge (https?://[^ ]+)"@
}

/// The groups that took part, in order; nothing where there was no result.
pub open spec fn present(caps: Option<Seq<Option<Seq<char>>>>) -> Seq<Seq<char>> {
    match caps {
        Some(s) => present_of(s),
        None => Seq::empty(),
    }
}

pub open spec fn present_of(s: Seq<Option<Seq<char>>>) -> Seq<Seq<char>>
    decreases s.len(),
{
    if s.len() == 0 {
        Seq::empty()
    } else {
        match s.last() {
            Some(t) => present_of(s.drop_last()).push(t),
            None => present_of(s.drop_last()),
        }
    }
}

/// Each string of `s` once, at the place of its first occurrence.
pub open spec fn first_occurrences(s: Seq<Seq<char>>) -> Seq<Seq<char>>
    decreases s.len(),
{
    if s.len() == 0 {
        Seq::empty()
    } else if s.drop_last().contains(s.last()) {
        first_occurrences(s.drop_last())
    } else {
        first_occurrences(s.drop_last()).push(s.last())
    }
}

/// Collapsing repeats loses no string and leaves none twice.
pub proof fn lemma_first_occurrences(s: Seq<Seq<char>>)
    ensures
        first_occurrences(s).len() <= s.len(),
        forall|t: Seq<char>| first_occurrences(s).contains(t) <==> s.contains(t),
        forall|i: int, j: int|
            0 <= i < j < first_occurrences(s).len() ==> first_occurrences(s)[i] != first_occurrences(
                s,
            )[j],
    decreases s.len(),
{
    if s.len() > 0 {
        let init = s.drop_last();
        let last = s.last();
        let kept = first_occurrences(init);
        let out = first_occurrences(s);
        lemma_first_occurrences(init);
        assert forall|t: Seq<char>| out.contains(t) <==> s.contains(t) by {
            if s.contains(t) {
                let j = choose|j: int| 0 <= j < s.len() && s[j] == t;
                if j < init.len() {
                    assert(init[j] == t);
                    assert(init.contains(t));
                    assert(kept.contains(t));
                    let k = choose|k: int| 0 <= k < kept.len() && kept[k] == t;
                    assert(out[k] == t);
                } else if init.contains(last) {
                    assert(kept.contains(t));
                } else {
                    assert(out[out.len() - 1] == t);
                }
            }
            if out.contains(t) {
                let k = choose|k: int| 0 <= k < out.len() && out[k] == t;
                if k < kept.len() {
                    assert(kept[k] == t);
                    assert(kept.contains(t));
                    assert(init.contains(t));
                    let j = choose|j: int| 0 <= j < init.len() && init[j] == t;
                    assert(s[j] == t);
                } else {
                    assert(s[s.len() - 1] == t);
                }
            }
        }
        assert forall|i: int, j: int| 0 <= i < j < out.len() implies out[i] != out[j] by {
            if j >= kept.len() {
                assert(kept[i] == out[i]);
                assert(kept.contains(kept[i]));
                assert(init.contains(kept[i]));
            }
        }
    }
}

/// Keeps the groups that took part in a match, in order.
pub fn collect_present(caps: Option<Vec<Option<String>>>) -> (out: Vec<String>)
    ensures
        texts(out@) == present(
            match caps {
                Some(v) => Some(optional_texts(v@)),
                None => None,
            },
        ),
{
    let mut out: Vec<String> = Vec::new();
    match caps {
        None => {
            assert(texts(out@) =~= Seq::<Seq<char>>::empty());
        },
        Some(v) => {
            let mut i: usize = 0;
            assert(texts(out@) =~= Seq::<Seq<char>>::empty());
            assert(optional_texts(v@).take(0) =~= Seq::<Option<Seq<char>>>::empty());
            while i < v.len()
                invariant
                    i <= v.len(),
                    texts(out@) == present_of(optional_texts(v@).take(i as int)),
                decreases v.len() - i,
            {
                let ghost before = texts(out@);
                proof {
                    let all = optional_texts(v@);
                    assert(all.take(i + 1).drop_last() =~= all.take(i as int));
                    assert(all.take(i + 1).last() == all[i as int]);
                }
                match &v[i] {
                    Some(s) => {
                        out.push(s.clone());
                        assert(texts(out@) =~= before.push(s@));
                    },
                    None => {},
                }
                i += 1;
            }
            assert(optional_texts(v@).take(v.len() as int) =~= optional_texts(v@));
        },
    }
    out
}

/// Removes repeated strings, keeping each at its first occurrence.
pub fn distinct(tokens: &Vec<String>) -> (out: Vec<String>)
    ensures
        texts(out@) == first_occurrences(texts(tokens@)),
{
    let mut out: Vec<String> = Vec::new();
    let mut i: usize = 0;
    assert(texts(out@) =~= Seq::<Seq<char>>::empty());
    assert(texts(tokens@).take(0) =~= Seq::<Seq<char>>::empty());
    while i < tokens.len()
        invariant
            i <= tokens.len(),
            texts(out@) == first_occurrences(texts(tokens@).take(i as int)),
        decreases tokens.len() - i,
    {
        let ghost all = texts(tokens@);
        let ghost before = texts(out@);
        let mut seen = false;
        let mut j: usize = 0;
        while j < i
            invariant
                j <= i,
                i < tokens.len(),
                seen == all.take(j as int).contains(tokens[i as int]@),
                all == texts(tokens@),
            decreases i - j,
        {
            proof {
                assert(all.take(j + 1) =~= all.take(j as int).push(all[j as int]));
                if all.take(j as int).contains(tokens[i as int]@) {
                    let k = choose|k: int| 0 <= k < j && all.take(j as int)[k] == tokens[i as int]@;
                    assert(all.take(j + 1)[k] == tokens[i as int]@);
                }
            }
            if tokens[j] == tokens[i] {
                seen = true;
                assert(all.take(j + 1)[j as int] == tokens[i as int]@);
            }
            j += 1;
        }
        proof {
            assert(all.take(i + 1).drop_last() =~= all.take(i as int));
            assert(all.take(i + 1).last() == tokens[i as int]@);
        }
        if !seen {
            out.push(tokens[i].clone());
            assert(texts(out@) =~= before.push(tokens[i as int]@));
        }
        i += 1;
    }
    assert(texts(tokens@).take(tokens.len() as int) =~= texts(tokens@));
    out
}

/// The index of the first `/` of `s` at or after `from`, or the length of `s`
/// where there is none.
pub open spec fn slash_from(s: Seq<char>, from: int) -> int
    decreases s.len() - from,
{
    if from < 0 || from >= s.len() {
        s.len() as int
    } else if s[from] == '/' {
        from
    } else {
        slash_from(s, from + 1)
    }
}

/// Whether a mention token names a team: it does where it holds a `/`.
pub open spec fn is_team_token(token: Seq<char>) -> bool {
    token.contains('/')
}

/// The team segment of a token: what stands between its first `/` and its
/// second, or its end. What stands before the first `/` is not looked at.
pub open spec fn team_segment(token: Seq<char>) -> Seq<char> {
    let first = slash_from(token, 0);
    if first < token.len() {
        token.subrange(first + 1, slash_from(token, first + 1))
    } else {
        Seq::empty()
    }
}

/// Finds the first `/` of `s` at or after `from`.
pub fn find_slash(s: &str, from: usize) -> (at: usize)
    requires
        from <= s@.len(),
    ensures
        at == slash_from(s@, from as int),
        from <= at <= s@.len(),
        forall|k: int| from <= k < at ==> s@[k] != '/',
        at < s@.len() ==> s@[at as int] == '/',
{
    let n = s.unicode_len();
    let mut i: usize = from;
    while i < n
        invariant
            from <= i <= n,
            n == s@.len(),
            slash_from(s@, from as int) == slash_from(s@, i as int),
            forall|k: int| from <= k < i ==> s@[k] != '/',
        decreases n - i,
    {
        if s.get_char(i) == '/' {
            return i;
        }
        i += 1;
    }
    i
}

/// The team segment of a token that names a team; `None` for a token that
/// names a single user.
pub fn team_of(token: &str) -> (team: Option<String>)
    ensures
        team is Some <==> is_team_token(token@),
        team is Some ==> team->0@ == team_segment(token@),
        team is Some ==> !team->0@.contains('/'),
{
    let n = token.unicode_len();
    let first = find_slash(token, 0);
    if first < n {
        let second = find_slash(token, first + 1);
        let team = String::from_str(token.substring_char(first + 1, second));
        assert(token@[first as int] == '/');
        Some(team)
    } else {
        None
    }
}

/// The mention tokens of `text`: what follows each `@`, every token once, in
/// the order of first occurrence.
pub fn extract_mentions(text: &str) -> (tokens: Vec<String>)
    ensures
        texts(tokens@) == first_occurrences(present(regex_captures(mention_pattern(), text@, 1))),
{
    let found = collect_present(captures("@([-\\w\\d/]+)", text, 1));
    distinct(&found)
}

/// The acknowledged URLs of `text`, all of them, in the order found.
pub fn extract_acknowledgements(text: &str) -> (urls: Vec<String>)
    ensures
        texts(urls@) == present(regex_captures(acknowledge_pattern(), text@, 1)),
{
    collect_present(captures("acknowledge (https?://[^ ]+)", text, 1))
}

} // verus!
