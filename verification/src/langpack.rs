//! The language pack: a key-to-text table loaded from the lines of a `.lang`
//! resource, and the placeholder substitution that resolves `{^key}` tokens
//! inside message templates.

use vstd::prelude::*;

verus! {

/// A loaded language pack.  Properties are kept in load order; a later
/// property shadows an earlier one with the same key.
pub struct Langpack {
    props: Vec<(String, String)>,
}

impl View for Langpack {
    type V = Seq<(Seq<char>, Seq<char>)>;

    closed spec fn view(&self) -> Seq<(Seq<char>, Seq<char>)> {
        self.props@.map_values(|p: (String, String)| (p.0@, p.1@))
    }
}

/// The value for a key among loaded properties: the last property with that
/// key wins.
pub open spec fn lookup(entries: Seq<(Seq<char>, Seq<char>)>, key: Seq<char>) -> Option<Seq<char>>
    decreases entries.len(),
{
    if entries.len() == 0 {
        None
    } else if entries.last().0 == key {
        Some(entries.last().1)
    } else {
        lookup(entries.drop_last(), key)
    }
}

/// The position of the first space at or after `i`.
pub open spec fn first_space_from(line: Seq<char>, i: int) -> Option<int>
    decreases line.len() - i,
{
    if i < 0 || i >= line.len() {
        None
    } else if line[i] == ' ' {
        Some(i)
    } else {
        first_space_from(line, i + 1)
    }
}

/// The property held by one resource line: the text before the first space is
/// the key, the rest of the line is the value.  A line without a space, or
/// with an empty key, holds none.
pub open spec fn line_entry(line: Seq<char>) -> Option<(Seq<char>, Seq<char>)> {
    match first_space_from(line, 0) {
        None => None,
        Some(i) => if i == 0 {
            None
        } else {
            Some((line.take(i), line.skip(i + 1)))
        },
    }
}

/// The properties loaded from a sequence of resource lines, in line order.
pub open spec fn load_entries(lines: Seq<Seq<char>>) -> Seq<(Seq<char>, Seq<char>)>
    decreases lines.len(),
{
    if lines.len() == 0 {
        Seq::empty()
    } else {
        let rest = load_entries(lines.drop_last());
        match line_entry(lines.last()) {
            Some(e) => rest.push(e),
            None => rest,
        }
    }
}

/// Whether a character may appear in a placeholder key.
pub open spec fn is_key_char(c: char) -> bool {
    ||| 97 <= c as u32 && c as u32 <= 122
    ||| 65 <= c as u32 && c as u32 <= 90
    ||| 48 <= c as u32 && c as u32 <= 57
    ||| c == '.'
    ||| c == '_'
    ||| c == '-'
}

/// The first position at or after `i` that does not hold a key character
/// (the string's length if every later character is one).
pub open spec fn key_end(s: Seq<char>, i: int) -> int
    decreases s.len() - i,
{
    if i < 0 || i >= s.len() {
        i
    } else if !is_key_char(s[i]) {
        i
    } else {
        key_end(s, i + 1)
    }
}

/// The position of the closing brace of a placeholder starting at `i`, if the
/// text at `i` is `{^`, then one or more key characters, then `}`.
pub open spec fn match_end(s: Seq<char>, i: int) -> Option<int> {
    if 0 <= i && i + 2 < s.len() && s[i] == '{' && s[i + 1] == '^' {
        let j = key_end(s, i + 2);
        if j > i + 2 && j < s.len() && s[j] == '}' {
            Some(j)
        } else {
            None
        }
    } else {
        None
    }
}

/// The translation of the template from position `i` on: each placeholder
/// whose key is loaded is replaced by its value, any other character is kept.
pub open spec fn translate_from(
    entries: Seq<(Seq<char>, Seq<char>)>,
    s: Seq<char>,
    i: int,
) -> Seq<char>
    decreases s.len() - i,
{
    if i < 0 || i >= s.len() {
        Seq::empty()
    } else {
        match match_end(s, i) {
            Some(j) => {
                let key = s.subrange(i + 2, j);
                match lookup(entries, key) {
                    Some(v) => v + translate_from(entries, s, j + 1),
                    None => s.subrange(i, j + 1) + translate_from(entries, s, j + 1),
                }
            },
            None => seq![s[i]] + translate_from(entries, s, i + 1),
        }
    }
}

/// The translation of a whole template.
pub open spec fn spec_translate(entries: Seq<(Seq<char>, Seq<char>)>, s: Seq<char>) -> Seq<char> {
    translate_from(entries, s, 0)
}

/// Whether the template from position `i` on holds a placeholder whose key is
/// loaded.
pub open spec fn has_resolvable_from(
    entries: Seq<(Seq<char>, Seq<char>)>,
    s: Seq<char>,
    i: int,
) -> bool
    decreases s.len() - i,
{
    if i < 0 || i >= s.len() {
        false
    } else {
        match match_end(s, i) {
            Some(j) => lookup(entries, s.subrange(i + 2, j)) is Some || has_resolvable_from(
                entries,
                s,
                j + 1,
            ),
            None => has_resolvable_from(entries, s, i + 1),
        }
    }
}

/// Whether a template holds any placeholder whose key is loaded.
pub open spec fn has_resolvable(entries: Seq<(Seq<char>, Seq<char>)>, s: Seq<char>) -> bool {
    has_resolvable_from(entries, s, 0)
}

proof fn lemma_translate_identity_from(entries: Seq<(Seq<char>, Seq<char>)>, s: Seq<char>, i: int)
    requires
        0 <= i <= s.len(),
        !has_resolvable_from(entries, s, i),
    ensures
        translate_from(entries, s, i) == s.skip(i),
    decreases s.len() - i,
{
    if i >= s.len() {
        assert(s.skip(i) =~= Seq::<char>::empty());
    } else {
        match match_end(s, i) {
            Some(j) => {
                lemma_translate_identity_from(entries, s, j + 1);
                assert(s.subrange(i, j + 1) + s.skip(j + 1) =~= s.skip(i));
            },
            None => {
                lemma_translate_identity_from(entries, s, i + 1);
                assert(seq![s[i]] + s.skip(i + 1) =~= s.skip(i));
            },
        }
    }
}

/// Law: a template with no resolvable placeholder translates to itself, so a
/// second translation returns the first one unchanged.
pub proof fn lemma_translate_idempotent(entries: Seq<(Seq<char>, Seq<char>)>, s: Seq<char>)
    requires
        !has_resolvable(entries, s),
    ensures
        spec_translate(entries, s) == s,
        spec_translate(entries, spec_translate(entries, s)) == spec_translate(entries, s),
{
    lemma_translate_identity_from(entries, s, 0);
    assert(s.skip(0) =~= s);
}

/// The value of the last line that defines `key`, if any line does.
pub open spec fn last_line_value(lines: Seq<Seq<char>>, key: Seq<char>) -> Option<Seq<char>>
    decreases lines.len(),
{
    if lines.len() == 0 {
        None
    } else {
        match line_entry(lines.last()) {
            Some(e) => if e.0 == key {
                Some(e.1)
            } else {
                last_line_value(lines.drop_last(), key)
            },
            None => last_line_value(lines.drop_last(), key),
        }
    }
}

/// Law: when several lines define the same key, loading keeps the value of
/// the last such line.
pub proof fn lemma_load_last_wins(lines: Seq<Seq<char>>, key: Seq<char>)
    ensures
        lookup(load_entries(lines), key) == last_line_value(lines, key),
    decreases lines.len(),
{
    if lines.len() > 0 {
        lemma_load_last_wins(lines.drop_last(), key);
        match line_entry(lines.last()) {
            Some(e) => {
                let rest = load_entries(lines.drop_last());
                assert(rest.push(e).drop_last() =~= rest);
            },
            None => {},
        }
    }
}

fn is_key_char_exec(c: char) -> (r: bool)
    ensures
        r == is_key_char(c),
{
    let u = c as u32;
    (97 <= u && u <= 122) || (65 <= u && u <= 90) || (48 <= u && u <= 57) || c == '.' || c == '_'
        || c == '-'
}

proof fn lemma_key_end_at(s: Seq<char>, start: int, j: int)
    requires
        0 <= start <= j <= s.len(),
        forall|k: int| start <= k < j ==> is_key_char(#[trigger] s[k]),
        j == s.len() || !is_key_char(s[j]),
    ensures
        key_end(s, start) == j,
    decreases j - start,
{
    if start < j {
        lemma_key_end_at(s, start + 1, j);
    }
}

proof fn lemma_first_space_skip(line: Seq<char>, i: int, j: int)
    requires
        0 <= i <= j <= line.len(),
        forall|k: int| i <= k < j ==> #[trigger] line[k] != ' ',
    ensures
        first_space_from(line, i) == first_space_from(line, j),
    decreases j - i,
{
    if i < j {
        lemma_first_space_skip(line, i + 1, j);
    }
}

impl Langpack {
    /// A language pack with no properties at all; translation through it
    /// resolves nothing.
    pub fn get_empty() -> (r: Langpack)
        ensures
            r@ == Seq::<(Seq<char>, Seq<char>)>::empty(),
    {
        let r = Langpack { props: Vec::new() };
        proof {
            assert(r@ =~= Seq::<(Seq<char>, Seq<char>)>::empty());
        }
        r
    }

    /// Builds a language pack from the lines of a resource file.
    pub fn load(lines: &Vec<String>) -> (r: Langpack)
        ensures
            r@ == load_entries(lines.deep_view()),
    {
        let ghost all_lines: Seq<Seq<char>> = lines.deep_view();
        let mut props: Vec<(String, String)> = Vec::new();
        let mut i: usize = 0;
        proof {
            assert(props@.map_values(|p: (String, String)| (p.0@, p.1@)) =~= load_entries(
                all_lines.take(0),
            ));
        }
        while i < lines.len()
            invariant
                i <= lines.len(),
                all_lines == lines.deep_view(),
                props@.map_values(|p: (String, String)| (p.0@, p.1@)) == load_entries(
                    all_lines.take(i as int),
                ),
            decreases lines.len() - i,
        {
            let line = &lines[i];
            let st = line.as_str();
            let n = st.unicode_len();
            let mut j: usize = 0;
            while j < n && st.get_char(j) != ' '
                invariant
                    j <= n,
                    n == st@.len(),
                    st@ == line@,
                    forall|k: int| 0 <= k < j ==> #[trigger] st@[k] != ' ',
                decreases n - j,
            {
                j = j + 1;
            }
            proof {
                lemma_first_space_skip(st@, 0, j as int);
                assert(all_lines[i as int] == line@);
                assert(all_lines.take(i + 1).drop_last() =~= all_lines.take(i as int));
                assert(all_lines.take(i + 1).last() == all_lines[i as int]);
            }
            if j < n && j > 0 {
                let key = st.substring_char(0, j);
                let value = st.substring_char(j + 1, n);
                let entry = (String::from_str(key), String::from_str(value));
                proof {
                    assert(first_space_from(line@, j as int) == Some(j as int));
                    assert(key@ =~= line@.take(j as int));
                    assert(value@ =~= line@.skip(j + 1));
                }
                let ghost old_props = props@;
                props.push(entry);
                proof {
                    assert(props@.map_values(|p: (String, String)| (p.0@, p.1@)) =~= old_props
                        .map_values(|p: (String, String)| (p.0@, p.1@)).push(
                        (entry.0@, entry.1@),
                    ));
                }
            } else {
                proof {
                    if j == n {
                        assert(first_space_from(line@, j as int) is None);
                        assert(line_entry(line@) is None);
                    } else {
                        assert(first_space_from(line@, 0) == Some(0int));
                        assert(line_entry(line@) is None);
                    }
                }
            }
            i = i + 1;
        }
        proof {
            assert(all_lines.take(i as int) =~= all_lines);
        }
        Langpack { props }
    }

    fn lookup_key(&self, key: &String) -> (r: Option<String>)
        ensures
            match r {
                Some(v) => lookup(self@, key@) == Some(v@),
                None => lookup(self@, key@) is None,
            },
    {
        let mut i = self.props.len();
        proof {
            assert(self@.take(self.props@.len() as int) =~= self@);
        }
        while i > 0
            invariant
                i <= self.props@.len(),
                self@.len() == self.props@.len(),
                lookup(self@, key@) == lookup(self@.take(i as int), key@),
            decreases i,
        {
            let k = i - 1;
            proof {
                assert(self@.take(k + 1).last() == self@[k as int]);
                assert(self@.take(k + 1).drop_last() =~= self@.take(k as int));
            }
            if self.props[k].0 == *key {
                return Some(self.props[k].1.clone());
            }
            i = k;
        }
        proof {
            assert(self@.take(0) =~= Seq::<(Seq<char>, Seq<char>)>::empty());
        }
        None
    }

    /// Replaces every `{^key}` placeholder whose key is loaded by that key's
    /// value; any other text, unresolved placeholders included, is kept as it
    /// stands.
    pub fn translate(&self, text: &String) -> (r: String)
        ensures
            r@ == spec_translate(self@, text@),
    {
        let s = text.as_str();
        let n = s.unicode_len();
        let mut out = String::new();
        let mut i: usize = 0;
        proof {
            assert(out@ + translate_from(self@, s@, 0) =~= translate_from(self@, s@, 0));
        }
        while i < n
            invariant
                i <= n,
                n == s@.len(),
                s@ == text@,
                out@ + translate_from(self@, s@, i as int) == spec_translate(self@, text@),
            decreases n - i,
        {
            let ghost prev_out = out@;
            if n - i > 2 && s.get_char(i) == '{' && s.get_char(i + 1) == '^' {
                let mut j = i + 2;
                while j < n && is_key_char_exec(s.get_char(j))
                    invariant
                        i + 2 <= j <= n,
                        n == s@.len(),
                        forall|k: int| i + 2 <= k < j ==> is_key_char(#[trigger] s@[k]),
                    decreases n - j,
                {
                    j = j + 1;
                }
                proof {
                    lemma_key_end_at(s@, i + 2, j as int);
                }
                if j > i + 2 && j < n && s.get_char(j) == '}' {
                    proof {
                        assert(match_end(s@, i as int) == Some(j as int));
                    }
                    let key = String::from_str(s.substring_char(i + 2, j));
                    proof {
                        assert(key@ =~= s@.subrange(i + 2, j as int));
                    }
                    match self.lookup_key(&key) {
                        Some(v) => {
                            out.append(v.as_str());
                            proof {
                                assert(prev_out + (v@ + translate_from(self@, s@, j + 1)) =~= (
                                prev_out + v@) + translate_from(self@, s@, j + 1));
                            }
                        },
                        None => {
                            let kept = s.substring_char(i, j + 1);
                            out.append(kept);
                            proof {
                                assert(prev_out + (s@.subrange(i as int, j + 1) + translate_from(
                                    self@,
                                    s@,
                                    j + 1,
                                )) =~= (prev_out + s@.subrange(i as int, j + 1)) + translate_from(
                                    self@,
                                    s@,
                                    j + 1,
                                ));
                            }
                        },
                    }
                    i = j + 1;
                } else {
                    proof {
                        assert(match_end(s@, i as int) is None);
                    }
                    let kept = s.substring_char(i, i + 1);
                    out.append(kept);
                    proof {
                        assert(kept@ =~= seq![s@[i as int]]);
                        assert(prev_out + (seq![s@[i as int]] + translate_from(
                            self@,
                            s@,
                            i + 1,
                        )) =~= (prev_out + seq![s@[i as int]]) + translate_from(self@, s@, i + 1));
                    }
                    i = i + 1;
                }
            } else {
                proof {
                    assert(match_end(s@, i as int) is None);
                }
                let kept = s.substring_char(i, i + 1);
                out.append(kept);
                proof {
                    assert(kept@ =~= seq![s@[i as int]]);
                    assert(prev_out + (seq![s@[i as int]] + translate_from(self@, s@, i + 1)) =~= (
                    prev_out + seq![s@[i as int]]) + translate_from(self@, s@, i + 1));
                }
                i = i + 1;
            }
        }
        out
    }
}

} // verus!
