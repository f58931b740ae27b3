//! How decoding relates to escaping.

use crate::html::decoded;
use crate::search::replace_all;
use vstd::prelude::*;

verus! {

/// A character as it is escaped. An apostrophe has a named and a numeric form.
pub open spec fn entity(c: char, named: bool) -> Seq<char> {
    if c == '"' {
        "&quot;"@
    } else if c == '\'' {
        if named {
            "&apos;"@
        } else {
            "&#39;"@
        }
    } else if c == '<' {
        "&lt;"@
    } else if c == '>' {
        "&gt;"@
    } else if c == '&' {
        "&amp;"@
    } else {
        seq![c]
    }
}

/// The text with each character escaped once. Of the two forms of an apostrophe,
/// `named` chooses place by place.
pub open spec fn escaped(s: Seq<char>, named: Seq<bool>) -> Seq<char>
    decreases s.len(),
{
    if s.len() == 0 {
        seq![]
    } else {
        entity(s[0], named[0]) + escaped(s.drop_first(), named.drop_first())
    }
}

/// The entity that a stage of decoding looks for.
spec fn pattern(stage: int) -> Seq<char> {
    if stage == 1 {
        "&quot;"@
    } else if stage == 2 {
        "&#39;"@
    } else if stage == 3 {
        "&apos;"@
    } else if stage == 4 {
        "&lt;"@
    } else if stage == 5 {
        "&gt;"@
    } else {
        "&amp;"@
    }
}

/// What a stage of decoding puts in its place.
spec fn plain(stage: int) -> Seq<char> {
    if stage == 1 {
        "\""@
    } else if stage == 2 || stage == 3 {
        "'"@
    } else if stage == 4 {
        "<"@
    } else if stage == 5 {
        ">"@
    } else {
        "&"@
    }
}

/// The stage that decodes a character, zero for one that needs none.
spec fn turn(c: char, named: bool) -> int {
    if c == '"' {
        1
    } else if c == '\'' {
        if named {
            3
        } else {
            2
        }
    } else if c == '<' {
        4
    } else if c == '>' {
        5
    } else if c == '&' {
        6
    } else {
        0
    }
}

/// An escaped character after a number of stages.
spec fn part(c: char, named: bool, stages: int) -> Seq<char> {
    if turn(c, named) <= stages {
        seq![c]
    } else {
        entity(c, named)
    }
}

/// An escaped text after a number of stages.
spec fn partly_decoded(s: Seq<char>, named: Seq<bool>, stages: int) -> Seq<char>
    decreases s.len(),
{
    if s.len() == 0 {
        seq![]
    } else {
        part(s[0], named[0], stages) + partly_decoded(s.drop_first(), named.drop_first(), stages)
    }
}

/// Every pattern begins with an ampersand and holds no other.
proof fn lemma_pattern(stage: int)
    requires
        1 <= stage <= 6,
    ensures
        pattern(stage).len() >= 4,
        pattern(stage)[0] == '&',
        forall|i: int| 1 <= i < pattern(stage).len() ==> #[trigger] pattern(stage)[i] != '&',
{
    reveal_strlit("&quot;");
    reveal_strlit("&#39;");
    reveal_strlit("&apos;");
    reveal_strlit("&lt;");
    reveal_strlit("&gt;");
    reveal_strlit("&amp;");
}

/// A place at which two patterns differ.
proof fn lemma_patterns_differ(a: int, b: int) -> (at: int)
    requires
        1 <= a <= 6,
        1 <= b <= 6,
        a != b,
    ensures
        0 <= at < 4,
        pattern(a)[at] != pattern(b)[at],
{
    reveal_strlit("&quot;");
    reveal_strlit("&#39;");
    reveal_strlit("&apos;");
    reveal_strlit("&lt;");
    reveal_strlit("&gt;");
    reveal_strlit("&amp;");
    if (a == 3 && b == 6) || (a == 6 && b == 3) {
        2
    } else {
        1
    }
}

/// Text without the first character of a pattern is left as it is.
proof fn lemma_replace_passes(
    u: Seq<char>,
    rest: Seq<char>,
    pattern: Seq<char>,
    to: Seq<char>,
)
    requires
        pattern.len() > 0,
        forall|i: int| 0 <= i < u.len() ==> #[trigger] u[i] != pattern[0],
    ensures
        replace_all(u + rest, pattern, to) == u + replace_all(rest, pattern, to),
    decreases u.len(),
{
    let s = u + rest;
    if u.len() == 0 {
        assert(s == rest);
        assert(u + replace_all(rest, pattern, to) == replace_all(rest, pattern, to));
    } else {
        let v = u.drop_first();
        lemma_replace_passes(v, rest, pattern, to);
        assert(s[0] == u[0]);
        assert(s.drop_first() == v + rest);
        assert(seq![u[0]] + (v + replace_all(rest, pattern, to)) == u + replace_all(
            rest,
            pattern,
            to,
        ));
    }
}

/// One stage decodes what is its turn, and nothing else.
proof fn lemma_stage(s: Seq<char>, named: Seq<bool>, stage: int)
    requires
        1 <= stage <= 6,
    ensures
        replace_all(partly_decoded(s, named, stage - 1), pattern(stage), plain(stage))
            == partly_decoded(s, named, stage),
    decreases s.len(),
{
    if s.len() > 0 {
        let (c, n) = (s[0], named[0]);
        let (more, names) = (s.drop_first(), named.drop_first());
        let rest = partly_decoded(more, names, stage - 1);
        let first = part(c, n, stage - 1);
        lemma_stage(more, names, stage);
        lemma_pattern(stage);
        let all = first + rest;
        if turn(c, n) == stage {
            reveal_strlit("\"");
            reveal_strlit("'");
            reveal_strlit("<");
            reveal_strlit(">");
            reveal_strlit("&");
            assert(plain(stage) == seq![c]);
            assert(first == pattern(stage));
            assert(all.subrange(0, first.len() as int) == first);
            assert(all.skip(first.len() as int) == rest);
        } else if turn(c, n) < stage {
            lemma_replace_passes(first, rest, pattern(stage), plain(stage));
        } else {
            let at = lemma_patterns_differ(turn(c, n), stage);
            lemma_pattern(turn(c, n));
            assert(first == pattern(turn(c, n)));
            assert(all[at] == first[at]);
            assert(!pattern(stage).is_prefix_of(all)) by {
                if pattern(stage).is_prefix_of(all) {
                    assert(all.subrange(0, pattern(stage).len() as int)[at] == all[at]);
                }
            }
            let tail = first.drop_first();
            assert(all.drop_first() == tail + rest);
            lemma_replace_passes(tail, rest, pattern(stage), plain(stage));
            let end = replace_all(rest, pattern(stage), plain(stage));
            assert(seq![first[0]] + (tail + end) == first + end);
        }
    }
}

/// Before the first stage a text is escaped, after the last one it is plain.
proof fn lemma_first_and_last(s: Seq<char>, named: Seq<bool>)
    ensures
        partly_decoded(s, named, 0) == escaped(s, named),
        partly_decoded(s, named, 6) == s,
    decreases s.len(),
{
    if s.len() > 0 {
        lemma_first_and_last(s.drop_first(), named.drop_first());
        assert(seq![s[0]] + s.drop_first() == s);
    }
}

/// Decoding undoes escaping, exactly once: what was an entity before it was escaped
/// is one again.
pub proof fn law_decoding_undoes_escaping(s: Seq<char>, named: Seq<bool>)
    ensures
        decoded(escaped(s, named)) == s,
{
    lemma_first_and_last(s, named);
    lemma_stage(s, named, 1);
    lemma_stage(s, named, 2);
    lemma_stage(s, named, 3);
    lemma_stage(s, named, 4);
    lemma_stage(s, named, 5);
    lemma_stage(s, named, 6);
}

} // verus!
