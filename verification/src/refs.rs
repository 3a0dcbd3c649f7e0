use vstd::prelude::*;

use crate::text::{chars_of, str_eq, views};

verus! {

/// The index of the first `}}` in `s` at or after `from`.
pub open spec fn close_from(s: Seq<char>, from: int) -> Option<int>
    decreases s.len() - from,
{
    if from < 0 || from + 1 >= s.len() {
        None
    } else if s[from] == '}' && s[from + 1] == '}' {
        Some(from)
    } else {
        close_from(s, from + 1)
    }
}

pub proof fn lemma_close_from(s: Seq<char>, from: int)
    ensures
        close_from(s, from) matches Some(j) ==> 0 <= from <= j && j + 1 < s.len() && s[j] == '}'
            && s[j + 1] == '}',
    decreases s.len() - from,
{
    if !(from < 0 || from + 1 >= s.len()) && !(s[from] == '}' && s[from + 1] == '}') {
        lemma_close_from(s, from + 1);
    }
}

/// The texts between `{{` and the next `}}` in `s`, scanning from index `i`: an
/// opening `{{` with no `}}` after it is skipped, and scanning resumes after each
/// closing `}}`.
pub open spec fn placeholders_from(s: Seq<char>, i: int) -> Seq<Seq<char>>
    decreases s.len() - i,
{
    if i < 0 || i + 1 >= s.len() {
        seq![]
    } else if s[i] == '{' && s[i + 1] == '{' && close_from(s, i + 2) is Some {
        let j = close_from(s, i + 2)->0;
        proof {
            lemma_close_from(s, i + 2);
        }
        seq![s.subrange(i + 2, j)] + placeholders_from(s, j + 2)
    } else {
        placeholders_from(s, i + 1)
    }
}

/// A name that refers to a user variable: not empty and not starting with `_`.
pub open spec fn is_variable_name(n: Seq<char>) -> bool {
    n.len() > 0 && n[0] != '_'
}

/// The variable names among `names`, each once, in order of first occurrence.
pub open spec fn distinct_variable_names(names: Seq<Seq<char>>) -> Seq<Seq<char>>
    decreases names.len(),
{
    if names.len() == 0 {
        seq![]
    } else {
        let prev = distinct_variable_names(names.drop_last());
        let n = names.last();
        if is_variable_name(n) && !prev.contains(n) {
            prev.push(n)
        } else {
            prev
        }
    }
}

/// The variables a text refers to with `{{name}}`, each once, in order of first
/// reference; names starting with `_` (built-in placeholders) and empty ones are left out.
pub open spec fn variable_refs(text: Seq<char>) -> Seq<Seq<char>> {
    distinct_variable_names(placeholders_from(text, 0))
}

fn find_close(cs: &Vec<char>, from: usize) -> (r: Option<usize>)
    requires
        from <= cs.len(),
    ensures
        match r {
            Some(j) => close_from(cs@, from as int) == Some(j as int),
            None => close_from(cs@, from as int) is None,
        },
{
    let mut k: usize = from;
    while k < cs.len() && cs.len() - k >= 2
        invariant
            from <= k <= cs.len(),
            close_from(cs@, from as int) == close_from(cs@, k as int),
        decreases cs.len() - k,
    {
        if cs[k] == '}' && cs[k + 1] == '}' {
            return Some(k);
        }
        k = k + 1;
    }
    None
}

fn contains_name(names: &Vec<String>, name: &str) -> (r: bool)
    ensures
        r == views(names@).contains(name@),
{
    let mut i: usize = 0;
    while i < names.len()
        invariant
            i <= names.len(),
            forall|k: int| 0 <= k < i ==> names@[k]@ != name@,
        decreases names.len() - i,
    {
        if str_eq(names[i].as_str(), name) {
            assert(views(names@)[i as int] == name@);
            return true;
        }
        i = i + 1;
    }
    assert forall|k: int| 0 <= k < views(names@).len() implies views(names@)[k] != name@ by {}
    false
}

/// The user variables that a text refers to as `{{name}}`, each once, in order of
/// first reference.
pub fn extract_variable_refs(text: &str) -> (r: Vec<String>)
    ensures
        views(r@) == variable_refs(text@),
{
    let cs = chars_of(text);
    let mut vars: Vec<String> = Vec::new();
    let ghost mut found: Seq<Seq<char>> = seq![];
    let mut i: usize = 0;
    assert(found + placeholders_from(text@, 0) =~= placeholders_from(text@, 0));
    while i < cs.len() && cs.len() - i >= 2
        invariant
            cs@ == text@,
            i <= cs.len(),
            placeholders_from(text@, 0) == found + placeholders_from(text@, i as int),
            views(vars@) == distinct_variable_names(found),
        decreases cs.len() - i,
    {
        if cs[i] == '{' && cs[i + 1] == '{' {
            match find_close(&cs, i + 2) {
                Some(j) => {
                    proof {
                        lemma_close_from(cs@, i + 2);
                    }
                    let name = text.substring_char(i + 2, j).to_owned();
                    let ghost n = text@.subrange(i + 2, j as int);
                    assert(name@ == n);
                    assert(placeholders_from(text@, i as int) == seq![n] + placeholders_from(
                        text@,
                        j + 2,
                    ));
                    let valid = j > i + 2 && cs[i + 2] != '_';
                    assert(valid == is_variable_name(n));
                    let seen = contains_name(&vars, name.as_str());
                    let ghost prev = views(vars@);
                    if valid && !seen {
                        vars.push(name);
                        assert(views(vars@) =~= prev.push(n));
                    }
                    proof {
                        assert(found.push(n).drop_last() =~= found);
                        assert(found + placeholders_from(text@, i as int) =~= found.push(n)
                            + placeholders_from(text@, j + 2));
                        found = found.push(n);
                    }
                    i = j + 2;
                    continue ;
                },
                None => {},
            }
        }
        i = i + 1;
    }
    assert(placeholders_from(text@, i as int) =~= Seq::<Seq<char>>::empty());
    assert(found + Seq::<Seq<char>>::empty() =~= found);
    vars
}

} // verus!
