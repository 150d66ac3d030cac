//! Strings as sequences of characters.

use vstd::prelude::*;

verus! {

/// The texts of a sequence of strings.
pub open spec fn texts(strings: Seq<String>) -> Seq<Seq<char>> {
    strings.map_values(|s: String| s@)
}

/// The parts one after the other, with `separator` between neighbours.
pub open spec fn joined(parts: Seq<Seq<char>>, separator: Seq<char>) -> Seq<char>
    decreases parts.len(),
{
    if parts.len() == 0 {
        Seq::empty()
    } else if parts.len() == 1 {
        parts[0]
    } else {
        joined(parts.drop_last(), separator) + separator + parts.last()
    }
}

/// The fields of a text between separators: one more than there are separators.
pub open spec fn split(s: Seq<char>, separator: char) -> Seq<Seq<char>>
    decreases s.len(),
{
    if s.len() == 0 {
        seq![Seq::empty()]
    } else {
        let fields = split(s.drop_last(), separator);
        if s.last() == separator {
            fields.push(Seq::empty())
        } else {
            fields.drop_last().push(fields.last().push(s.last()))
        }
    }
}

/// The contents of a sequence of vectors.
pub open spec fn contents(vectors: Seq<Vec<char>>) -> Seq<Seq<char>> {
    vectors.map_values(|v: Vec<char>| v@)
}

/// Whether `c` is nowhere in the text.
pub open spec fn lacks(s: Seq<char>, c: char) -> bool {
    forall|i: int| 0 <= i < s.len() ==> #[trigger] s[i] != c
}

/// `String::push` puts the character behind the text.
pub assume_specification[ String::push ](s: &mut String, c: char)
    ensures
        final(s)@ == old(s)@.push(c),
;

/// The characters of a text, one element each.
pub fn characters(text: &str) -> (chars: Vec<char>)
    ensures
        chars@ == text@,
{
    let mut chars: Vec<char> = Vec::new();
    for c in it: text.chars()
        invariant
            it.seq() == text@,
            chars@ == text@.take(it.index() as int),
    {
        chars.push(c);
    }
    chars
}

/// An optional string as a contract sees it.
pub open spec fn optional_view(text: Option<String>) -> Option<Seq<char>> {
    match text {
        Some(text) => Some(text@),
        None => None,
    }
}

/// The text behind `prefix`, where `text` begins with it.
pub fn strip_prefix(text: &str, prefix: &str) -> (rest: Option<String>)
    ensures
        rest is Some <==> text@.len() >= prefix@.len() && text@.take(prefix@.len() as int)
            == prefix@,
        rest is Some ==> rest.unwrap()@ == text@.skip(prefix@.len() as int),
{
    let chars = characters(text);
    let start = characters(prefix);
    if chars.len() < start.len() {
        return None;
    }
    let mut i: usize = 0;
    while i < start.len()
        invariant
            i <= start@.len() <= chars@.len(),
            chars@ == text@,
            start@ == prefix@,
            chars@.take(i as int) == start@.take(i as int),
        decreases start@.len() - i,
    {
        if chars[i] != start[i] {
            proof {
                if text@.take(prefix@.len() as int) == prefix@ {
                    assert(text@.take(prefix@.len() as int)[i as int] == prefix@[i as int]);
                }
            }
            return None;
        }
        assert(chars@.take(i + 1) == chars@.take(i as int).push(chars@[i as int]));
        assert(start@.take(i + 1) == start@.take(i as int).push(start@[i as int]));
        i = i + 1;
    }
    assert(start@.take(start@.len() as int) == prefix@);
    let mut rest = String::new();
    while i < chars.len()
        invariant
            start@.len() <= i <= chars@.len(),
            rest@ == chars@.subrange(start@.len() as int, i as int),
        decreases chars@.len() - i,
    {
        rest.push(chars[i]);
        assert(rest@ == chars@.subrange(start@.len() as int, i + 1));
        i = i + 1;
    }
    assert(rest@ == text@.skip(prefix@.len() as int));
    Some(rest)
}

/// The fields of a text between separators.
pub fn split_fields(chars: &[char], separator: char) -> (fields: Vec<Vec<char>>)
    ensures
        contents(fields@) == split(chars@, separator),
{
    let mut fields: Vec<Vec<char>> = Vec::new();
    let mut field: Vec<char> = Vec::new();
    let mut i: usize = 0;
    assert(chars@.take(0) == Seq::<char>::empty());
    while i < chars.len()
        invariant
            i <= chars.len(),
            contents(fields@).push(field@) == split(chars@.take(i as int), separator),
        decreases chars.len() - i,
    {
        let c = chars[i];
        proof {
            assert(chars@.take(i + 1).drop_last() == chars@.take(i as int));
            assert(contents(fields@).push(field@).drop_last() == contents(fields@));
        }
        if c == separator {
            let ghost before = contents(fields@);
            let ghost last = field@;
            fields.push(field);
            field = Vec::new();
            assert(contents(fields@) == before.push(last));
        } else {
            field.push(c);
        }
        i = i + 1;
    }
    assert(chars@.take(chars@.len() as int) == chars@);
    let ghost before = contents(fields@);
    let ghost last = field@;
    fields.push(field);
    assert(contents(fields@) == before.push(last));
    fields
}

/// A text without separators behind another belongs to its last field.
proof fn lemma_split_append(s: Seq<char>, t: Seq<char>, separator: char)
    requires
        lacks(t, separator),
    ensures
        split(s, separator).len() > 0,
        split(s + t, separator) == split(s, separator).drop_last().push(
            split(s, separator).last() + t,
        ),
    decreases s.len() + t.len(),
{
    if t.len() == 0 {
        if s.len() > 0 {
            lemma_split_append(s.drop_last(), Seq::empty(), separator);
        }
        assert(s + t == s);
        let fields = split(s, separator);
        assert(fields.last() + t == fields.last());
        assert(fields == fields.drop_last().push(fields.last()));
    } else {
        assert((s + t).drop_last() == s + t.drop_last());
        assert(lacks(t.drop_last(), separator)) by {
            assert forall|i: int| 0 <= i < t.drop_last().len() implies #[trigger] t.drop_last()[i]
                != separator by {
                assert(t.drop_last()[i] == t[i]);
            }
        }
        lemma_split_append(s, t.drop_last(), separator);
        assert(t[t.len() - 1] != separator);
        let fields = split(s, separator);
        assert((fields.last() + t.drop_last()).push(t.last()) == fields.last() + t);
        let shorter = fields.drop_last().push(fields.last() + t.drop_last());
        assert(shorter.drop_last() == fields.drop_last());
    }
}

/// Splitting at the separators that joined parts gives the parts back, where no part
/// holds a separator of its own.
pub proof fn split_undoes_joined(parts: Seq<Seq<char>>, separator: char)
    requires
        parts.len() > 0,
        forall|i: int| 0 <= i < parts.len() ==> lacks(#[trigger] parts[i], separator),
    ensures
        split(joined(parts, seq![separator]), separator) == parts,
    decreases parts.len(),
{
    assert(lacks(parts[parts.len() - 1], separator));
    if parts.len() == 1 {
        lemma_split_append(Seq::empty(), parts[0], separator);
        assert(Seq::<char>::empty() + parts[0] == parts[0]);
        assert(split(parts[0], separator) == parts);
    } else {
        let init = parts.drop_last();
        assert forall|i: int| 0 <= i < init.len() implies lacks(#[trigger] init[i], separator) by {
            assert(init[i] == parts[i]);
        }
        split_undoes_joined(init, separator);
        let text = joined(init, seq![separator]);
        let next = text + seq![separator];
        assert(next.drop_last() == text);
        assert(split(next, separator) == init.push(Seq::empty()));
        lemma_split_append(next, parts.last(), separator);
        assert(Seq::<char>::empty() + parts.last() == parts.last());
        assert(init.push(Seq::<char>::empty()).drop_last() == init);
        assert(init.push(parts.last()) == parts);
    }
}

/// A character that is in no part and is not the separator is not in the joined text.
pub proof fn lemma_joined_lacks(parts: Seq<Seq<char>>, separator: char, c: char)
    requires
        c != separator,
        forall|i: int| 0 <= i < parts.len() ==> lacks(#[trigger] parts[i], c),
    ensures
        lacks(joined(parts, seq![separator]), c),
    decreases parts.len(),
{
    if parts.len() > 0 {
        assert(lacks(parts[parts.len() - 1], c));
        if parts.len() > 1 {
            let init = parts.drop_last();
            assert forall|i: int| 0 <= i < init.len() implies lacks(#[trigger] init[i], c) by {
                assert(init[i] == parts[i]);
            }
            lemma_joined_lacks(init, separator, c);
        }
    }
}

/// A character that is in no field and is not the separator is not in the text.
pub proof fn lemma_fields_lack(s: Seq<char>, separator: char, c: char)
    requires
        c != separator,
        forall|i: int|
            0 <= i < split(s, separator).len() ==> lacks(#[trigger] split(s, separator)[i], c),
    ensures
        lacks(s, c),
    decreases s.len(),
{
    if s.len() > 0 {
        lemma_split_append(s.drop_last(), Seq::empty(), separator);
        let shorter = split(s.drop_last(), separator);
        let fields = split(s, separator);
        assert forall|i: int| 0 <= i < shorter.len() implies lacks(#[trigger] shorter[i], c) by {
            assert(lacks(fields[i], c));
            if s.last() != separator && i == shorter.len() - 1 {
                assert forall|j: int| 0 <= j < shorter[i].len() implies #[trigger] shorter[i][j]
                    != c by {
                    assert(fields[i][j] == shorter[i][j]);
                }
            } else {
                assert(fields[i] == shorter[i]);
            }
        }
        lemma_fields_lack(s.drop_last(), separator, c);
        if s.last() != separator {
            let last = fields[fields.len() - 1];
            assert(last[last.len() - 1] == s.last());
        }
        assert forall|i: int| 0 <= i < s.len() implies #[trigger] s[i] != c by {
            if i < s.len() - 1 {
                assert(s[i] == s.drop_last()[i]);
            }
        }
    }
}

/// Joined parts hold nothing but the parts, in their order, and one separator between
/// neighbours.
pub proof fn joined_grows_by_a_part(
    parts: Seq<Seq<char>>,
    part: Seq<char>,
    separator: Seq<char>,
)
    ensures
        joined(Seq::empty(), separator) == Seq::<char>::empty(),
        joined(seq![part], separator) == part,
        parts.len() > 0 ==> joined(parts.push(part), separator) == joined(parts, separator)
            + separator + part,
{
    assert(parts.push(part).drop_last() == parts);
}

/// Joining the fields of a text gives the text back, and no field holds a separator.
pub proof fn joined_undoes_split(s: Seq<char>, separator: char)
    ensures
        split(s, separator).len() > 0,
        joined(split(s, separator), seq![separator]) == s,
        forall|i: int|
            0 <= i < split(s, separator).len() ==> lacks(
                #[trigger] split(s, separator)[i],
                separator,
            ),
    decreases s.len(),
{
    let fields = split(s, separator);
    if s.len() == 0 {
        assert(joined(fields, seq![separator]) == s);
    } else {
        let before = s.drop_last();
        let shorter = split(before, separator);
        joined_undoes_split(before, separator);
        assert(before.push(s.last()) == s);
        if s.last() == separator {
            joined_grows_by_a_part(shorter, Seq::empty(), seq![separator]);
            assert(before + seq![separator] + Seq::<char>::empty() == s);
            assert forall|i: int| 0 <= i < fields.len() implies lacks(
                #[trigger] fields[i],
                separator,
            ) by {
                if i < shorter.len() {
                    assert(fields[i] == shorter[i]);
                }
            }
        } else {
            let init = shorter.drop_last();
            let last = shorter.last();
            assert(init.push(last) == shorter);
            assert(fields == init.push(last.push(s.last())));
            joined_grows_by_a_part(init, last, seq![separator]);
            joined_grows_by_a_part(init, last.push(s.last()), seq![separator]);
            if init.len() == 0 {
                assert(shorter == seq![last]);
                assert(fields == seq![last.push(s.last())]);
            } else {
                let start = joined(init, seq![separator]) + seq![separator];
                assert(start + last.push(s.last()) == (start + last).push(s.last()));
            }
            assert forall|i: int| 0 <= i < fields.len() implies lacks(
                #[trigger] fields[i],
                separator,
            ) by {
                assert(lacks(shorter[i], separator));
                if i < init.len() {
                    assert(fields[i] == shorter[i]);
                } else {
                    assert forall|j: int| 0 <= j < fields[i].len() implies #[trigger] fields[i][j]
                        != separator by {
                        if j < last.len() {
                            assert(fields[i][j] == shorter[i][j]);
                        }
                    }
                }
            }
        }
    }
}

/// Texts are seen as they are and in their order, and an optional text as one where it is
/// there.
pub proof fn texts_are_seen_as_they_are(strings: Seq<String>, vectors: Seq<Vec<char>>, i: int)
    ensures
        texts(strings).len() == strings.len(),
        0 <= i < strings.len() ==> texts(strings)[i] == strings[i]@ && optional_view(
            Some(strings[i]),
        ) == Some(strings[i]@),
        contents(vectors).len() == vectors.len(),
        0 <= i < vectors.len() ==> contents(vectors)[i] == vectors[i]@,
        optional_view(None) is None,
{
}

} // verus!
