//! Names of kernel programs: from their sources to the modules and the bindings made of them.

use crate::text::{
    ascii_upper, chars_of, law_split_at_a_separator, law_text_without_a_separator_is_one_piece,
    same_text, split, split_chars, string_of, texts, to_uppercase, upper_text,
};
use vstd::prelude::*;
use vstd::utf8::is_ascii_chars;

verus! {

/// The end of the name of a kernel program's source.
pub const SOURCE_SUFFIX: &'static str = ".bpf.c";

/// The end of the name of a compiled kernel program.
pub const OBJECT_SUFFIX: &'static str = ".bpf.o";

/// A word with its first letter in uppercase.
pub open spec fn capitalized(word: Seq<char>) -> Seq<char> {
    if word.len() == 0 {
        word
    } else {
        upper_text(word.take(1)) + word.skip(1)
    }
}

/// The concatenation of capitalized words.
pub open spec fn camel(parts: Seq<Seq<char>>) -> Seq<char>
    decreases parts.len(),
{
    if parts.len() == 0 {
        Seq::empty()
    } else {
        camel(parts.drop_last()) + capitalized(parts.last())
    }
}

/// A name in snake case, in camel case: the bindings of `exec_block` go by `ExecBlock`.
pub fn snake_to_camel(s: &str) -> (r: String)
    ensures
        r@ == camel(split(s@, '_')),
{
    let parts = split_chars(&chars_of(s), '_');
    let ghost all = split(s@, '_');
    assert(texts(parts@) == all);
    let mut out = String::new();
    let mut i: usize = 0;
    assert(all.take(0) =~= Seq::empty());
    while i < parts.len()
        invariant
            texts(parts@) == all,
            i <= parts@.len() == all.len(),
            out@ == camel(all.take(i as int)),
        decreases parts@.len() - i,
    {
        assert(all[i as int] == parts@[i as int]@);
        assert(all.take(i + 1).drop_last() =~= all.take(i as int));
        let word = chars_of(parts[i].as_str());
        if word.len() > 0 {
            let first = string_of(word.as_slice(), 0, 1);
            let rest = string_of(word.as_slice(), 1, word.len());
            assert(first@ =~= word@.take(1));
            assert(rest@ =~= word@.skip(1));
            let ghost before = out@;
            out.append(to_uppercase(first.as_str()).as_str());
            out.append(rest.as_str());
            assert(out@ =~= before + capitalized(word@));
        }
        i = i + 1;
    }
    assert(all.take(i as int) =~= all);
    out
}

/// Whether a text ends with another.
pub open spec fn has_suffix(s: Seq<char>, suffix: Seq<char>) -> bool {
    suffix.len() <= s.len() && s.skip(s.len() - suffix.len()) == suffix
}

/// A text without the given suffix, as often as it stands at the end.
pub open spec fn strip_suffixes(s: Seq<char>, suffix: Seq<char>) -> Seq<char>
    decreases s.len(),
{
    if suffix.len() > 0 && has_suffix(s, suffix) {
        strip_suffixes(s.take(s.len() - suffix.len()), suffix)
    } else {
        s
    }
}

/// Tests whether a text ends with another.
fn ends_with(chars: &Vec<char>, end: usize, suffix: &Vec<char>) -> (r: bool)
    requires
        end <= chars@.len(),
    ensures
        r == has_suffix(chars@.take(end as int), suffix@),
{
    let n: usize = suffix.len();
    if end < n {
        return false;
    }
    let ghost whole = chars@.take(end as int);
    let tail = string_of(chars.as_slice(), end - n, end);
    assert(tail@ =~= whole.skip(end - n));
    let wanted = string_of(suffix.as_slice(), 0, n);
    assert(wanted@ =~= suffix@);
    same_text(tail.as_str(), wanted.as_str())
}

/// The module that a source or a compiled program belongs to, by the name of its file; none where
/// the name does not end as it should.
pub fn module_name(file_name: &str, suffix: &str) -> (r: Option<String>)
    requires
        suffix@.len() > 0,
    ensures
        r is Some <==> has_suffix(file_name@, suffix@),
        r matches Some(name) ==> name@ == strip_suffixes(file_name@, suffix@),
{
    let chars = chars_of(file_name);
    let ending = chars_of(suffix);
    let n: usize = ending.len();
    let mut end: usize = chars.len();
    assert(chars@.take(end as int) =~= file_name@);
    if !ends_with(&chars, end, &ending) {
        return None;
    }
    while ends_with(&chars, end, &ending)
        invariant
            n == ending@.len(),
            n > 0,
            ending@ == suffix@,
            end <= chars@.len(),
            strip_suffixes(chars@.take(end as int), suffix@) == strip_suffixes(
                file_name@,
                suffix@,
            ),
        decreases end,
    {
        assert(chars@.take(end as int).take(end - n) =~= chars@.take(end - n));
        end = end - n;
    }
    let name = string_of(chars.as_slice(), 0, end);
    assert(name@ =~= chars@.take(end as int));
    Some(name)
}

proof fn lemma_camel_concat(a: Seq<Seq<char>>, b: Seq<Seq<char>>)
    ensures
        camel(a + b) == camel(a) + camel(b),
    decreases b.len(),
{
    if b.len() == 0 {
        assert(a + b =~= a);
        assert(camel(a) + camel(b) =~= camel(a));
    } else {
        assert((a + b).drop_last() =~= a + b.drop_last());
        lemma_camel_concat(a, b.drop_last());
        assert(camel(a + b) =~= camel(a) + camel(b));
    }
}

/// An underscore joins two names in snake case; their camel case is one behind the other, and the
/// underscore is gone.
pub proof fn law_camel_case_joins_words(first: Seq<char>, second: Seq<char>)
    ensures
        camel(split(first + seq!['_'] + second, '_')) == camel(split(first, '_')) + camel(
            split(second, '_'),
        ),
{
    law_split_at_a_separator(first, '_', second);
    lemma_camel_concat(split(first, '_'), split(second, '_'));
}

/// A single word keeps its letters in camel case, but for the first one, which is in uppercase.
pub proof fn law_camel_case_of_a_word(first: char, rest: Seq<char>)
    requires
        'a' <= first <= 'z',
        !rest.contains('_'),
    ensures
        ({
            let word = seq![first] + rest;
            let name = camel(split(word, '_'));
            &&& name.len() == word.len()
            &&& 'A' <= name[0] <= 'Z'
            &&& name[0] as u32 + 32 == first as u32
            &&& name.skip(1) == rest
        }),
{
    let word = seq![first] + rest;
    assert forall|i: int| 0 <= i < word.len() implies #[trigger] word[i] != '_' by {
        if i > 0 {
            assert(word[i] == rest[i - 1]);
        }
    }
    law_text_without_a_separator_is_one_piece(word, '_');
    let parts = split(word, '_');
    assert(parts.drop_last() =~= Seq::empty());
    assert(camel(parts.drop_last()) =~= Seq::empty());
    assert(word.take(1) =~= seq![first]);
    assert(word.skip(1) =~= rest);
    assert(is_ascii_chars(seq![first]));
    assert(upper_text(seq![first]) =~= seq![ascii_upper(first)]);
    assert(camel(parts) =~= seq![ascii_upper(first)] + rest);
    assert(camel(parts).skip(1) =~= rest);
}

/// The file of a module leads back to the module: its name and the suffix are taken for that name,
/// unless the name ends with the suffix itself.
pub proof fn law_file_leads_to_its_module(name: Seq<char>, suffix: Seq<char>)
    requires
        suffix.len() > 0,
        !(name.len() >= suffix.len() && name.skip(name.len() - suffix.len()) == suffix),
    ensures
        has_suffix(name + suffix, suffix),
        strip_suffixes(name + suffix, suffix) == name,
{
    let file = name + suffix;
    assert(file.skip(file.len() - suffix.len()) =~= suffix);
    assert(file.take(file.len() - suffix.len()) =~= name);
    assert(strip_suffixes(name, suffix) == name);
}

/// Only a file whose name ends with the suffix belongs to a module.
pub proof fn law_other_files_have_no_module(file: Seq<char>, suffix: Seq<char>)
    ensures
        has_suffix(file, suffix) <==> exists|name: Seq<char>| file == #[trigger] (name + suffix),
{
    if has_suffix(file, suffix) {
        let name = file.take(file.len() - suffix.len());
        assert(file =~= name + suffix);
    }
    if exists|name: Seq<char>| file == #[trigger] (name + suffix) {
        let name = choose|name: Seq<char>| file == #[trigger] (name + suffix);
        assert(file.skip(file.len() - suffix.len()) =~= suffix);
    }
}

/// The names of sources and of compiled programs end as they should.
pub proof fn law_suffixes()
    ensures
        SOURCE_SUFFIX@ == ".bpf.c"@,
        OBJECT_SUFFIX@ == ".bpf.o"@,
{
}

} // verus!
