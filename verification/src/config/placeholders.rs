//! Whether a prompt template and its declared variables agree: every
//! declared variable has its `{name}` placeholder in the template, and every
//! placeholder of the template is declared.

use crate::config::validator::{cell_error, error_views, ErrorView, ValidationError};
use crate::text::{chars_of, contains_string, lemma_new_flatten_push, push_char, push_str, string_from_range, views};
use vstd::prelude::*;

verus! {

/// ASCII letters, digits and the underscore: what variable names are made
/// of.
pub open spec fn name_char(c: char) -> bool {
    ('0' <= c && c <= '9') || ('A' <= c && c <= 'Z') || ('a' <= c && c <= 'z') || c == '_'
}

fn is_name_char(c: char) -> (b: bool)
    ensures
        b == name_char(c),
{
    ('0' <= c && c <= '9') || ('A' <= c && c <= 'Z') || ('a' <= c && c <= 'z') || c == '_'
}

/// The maximal runs of name characters of `s`, `cur` being the run already
/// begun before it.
pub open spec fn runs_from(s: Seq<char>, cur: Seq<char>) -> Seq<Seq<char>>
    decreases s.len(),
{
    if s.len() == 0 {
        if cur.len() > 0 {
            seq![cur]
        } else {
            seq![]
        }
    } else if name_char(s[0]) {
        runs_from(s.drop_first(), cur.push(s[0]))
    } else {
        (if cur.len() > 0 {
            seq![cur]
        } else {
            seq![]
        }) + runs_from(s.drop_first(), Seq::empty())
    }
}

/// The variable names declared in a `variables` cell: its maximal runs of
/// name characters, whatever separates them.
pub open spec fn declared_names(s: Seq<char>) -> Seq<Seq<char>> {
    runs_from(s, Seq::empty())
}

/// How many name characters `s` begins with.
pub open spec fn name_prefix_len(s: Seq<char>) -> nat
    decreases s.len(),
{
    if s.len() > 0 && name_char(s[0]) {
        1 + name_prefix_len(s.drop_first())
    } else {
        0
    }
}

/// The names of the `{name}` placeholders of a template, in order.
pub open spec fn placeholder_names(t: Seq<char>) -> Seq<Seq<char>>
    decreases t.len(),
{
    if t.len() == 0 {
        seq![]
    } else if t[0] == '{' {
        let n: int = name_prefix_len(t.drop_first()) as int;
        if n > 0 && n + 1 < t.len() && t[n + 1] == '}' {
            seq![t.subrange(1, n + 1)] + placeholder_names(t.skip(n + 2))
        } else {
            placeholder_names(t.drop_first())
        }
    } else {
        placeholder_names(t.drop_first())
    }
}

/// The errors of one prompt row whose template reads `template`: each
/// declared variable without its placeholder, then each placeholder that is
/// not declared.
pub open spec fn placeholder_errors(row: usize, variables: Seq<char>, template: Seq<char>) -> Seq<ErrorView> {
    let declared = declared_names(variables);
    let present = placeholder_names(template);
    Seq::new(declared.len(), |i: int| missing_placeholder(row, declared[i], present)).flatten()
        + Seq::new(present.len(), |j: int| undeclared_placeholder(row, present[j], declared)).flatten()
}

/// The variable names declared in `s`, in order.
pub fn declared_names_of(s: &str) -> (out: Vec<String>)
    ensures
        views(out@) == declared_names(s@),
{
    let cs = chars_of(s);
    let mut out: Vec<String> = Vec::new();
    let mut cur = String::new();
    let mut open = false;
    let mut i: usize = 0;
    proof {
        assert(cs@.skip(0) =~= cs@);
        assert(cur@ =~= Seq::<char>::empty());
        assert(views(out@) + runs_from(cs@, cur@) =~= runs_from(cs@, cur@));
    }
    while i < cs.len()
        invariant
            i <= cs.len(),
            cs@ == s@,
            open == (cur@.len() > 0),
            views(out@) + runs_from(cs@.skip(i as int), cur@) == declared_names(s@),
        decreases cs.len() - i,
    {
        let c = cs[i];
        let ghost rest = cs@.skip(i as int);
        assert(rest.drop_first() =~= cs@.skip(i + 1));
        assert(rest[0] == c);
        if is_name_char(c) {
            push_char(&mut cur, c);
            open = true;
        } else if open {
            let ghost before = views(out@);
            let ghost done = cur@;
            out.push(cur);
            cur = String::new();
            open = false;
            assert(views(out@) =~= before.push(done));
            assert(before + (seq![done] + runs_from(cs@.skip(i + 1), Seq::empty())) =~= views(out@)
                + runs_from(cs@.skip(i + 1), cur@));
        } else {
            assert(cur@ =~= Seq::<char>::empty());
            assert(runs_from(rest, cur@) =~= runs_from(cs@.skip(i + 1), Seq::empty()));
        }
        i += 1;
    }
    assert(cs@.skip(i as int) =~= Seq::<char>::empty());
    if open {
        let ghost before = views(out@);
        let ghost done = cur@;
        out.push(cur);
        assert(views(out@) =~= before.push(done));
    } else {
        assert(views(out@) + runs_from(cs@.skip(i as int), cur@) =~= views(out@));
    }
    out
}

/// The names of the `{name}` placeholders of `t`, in order.
pub fn placeholder_names_of(t: &str) -> (out: Vec<String>)
    ensures
        views(out@) == placeholder_names(t@),
{
    let cs = chars_of(t);
    let mut out: Vec<String> = Vec::new();
    let mut i: usize = 0;
    proof {
        assert(cs@.skip(0) =~= cs@);
        assert(views(out@) + placeholder_names(cs@) =~= placeholder_names(cs@));
    }
    while i < cs.len()
        invariant
            i <= cs.len(),
            cs@ == t@,
            views(out@) + placeholder_names(cs@.skip(i as int)) == placeholder_names(t@),
        decreases cs.len() - i,
    {
        let ghost rest = cs@.skip(i as int);
        assert(rest.drop_first() =~= cs@.skip(i + 1));
        assert(rest[0] == cs@[i as int]);
        if cs[i] == '{' {
            let mut j: usize = i + 1;
            while j < cs.len() && is_name_char(cs[j])
                invariant
                    i < j <= cs.len(),
                    name_prefix_len(cs@.skip(i + 1)) == (j - (i + 1)) + name_prefix_len(cs@.skip(j as int)),
                decreases cs.len() - j,
            {
                assert(cs@.skip(j as int).drop_first() =~= cs@.skip(j + 1));
                assert(cs@.skip(j as int)[0] == cs@[j as int]);
                j += 1;
            }
            proof {
                if j < cs.len() {
                    assert(cs@.skip(j as int)[0] == cs@[j as int]);
                }
                assert(name_prefix_len(cs@.skip(j as int)) == 0);
            }
            if j > i + 1 && j < cs.len() && cs[j] == '}' {
                let name = string_from_range(&cs, i + 1, j);
                let ghost before = views(out@);
                let ghost n: int = j - (i + 1);
                assert(rest[n + 1] == cs@[j as int]);
                assert(rest.subrange(1, n + 1) =~= cs@.subrange(i + 1, j as int));
                assert(rest.skip(n + 2) =~= cs@.skip(j + 1));
                out.push(name);
                assert(views(out@) =~= before.push(name@));
                assert(before + placeholder_names(rest) =~= views(out@) + placeholder_names(cs@.skip(j + 1)));
                i = j + 1;
            } else {
                i += 1;
            }
        } else {
            i += 1;
        }
    }
    assert(cs@.skip(i as int) =~= Seq::<char>::empty());
    assert(views(out@) + placeholder_names(cs@.skip(i as int)) =~= views(out@));
    out
}

/// The error of a declared variable `name` when `present` lacks it.
pub open spec fn missing_placeholder(row: usize, name: Seq<char>, present: Seq<Seq<char>>) -> Seq<ErrorView> {
    if present.contains(name) {
        seq![]
    } else {
        seq![cell_error("prompts.csv"@, row, "variables"@, "placeholder {"@ + name + "} missing from template"@)]
    }
}

/// The error of a placeholder `name` when `declared` lacks it.
pub open spec fn undeclared_placeholder(row: usize, name: Seq<char>, declared: Seq<Seq<char>>) -> Seq<ErrorView> {
    if declared.contains(name) {
        seq![]
    } else {
        seq![cell_error("prompts.csv"@, row, "template_key"@, "undeclared placeholder {"@ + name + "}"@)]
    }
}

fn push_error(errors: &mut Vec<ValidationError>, e: ValidationError)
    ensures
        error_views(final(errors)@) == error_views(old(errors)@).push(e@),
{
    errors.push(e);
    assert(error_views(errors@) =~= error_views(old(errors)@).push(e@));
}

/// Checks the prompt row `row`, whose `variables` cell is `variables` and
/// whose template text is `template`, and appends its errors.
pub(crate) fn check_placeholders(row: usize, variables: &str, template: &str, errors: &mut Vec<ValidationError>)
    ensures
        error_views(final(errors)@) == error_views(old(errors)@) + placeholder_errors(row, variables@, template@),
{
    let declared = declared_names_of(variables);
    let present = placeholder_names_of(template);
    let ghost d = views(declared@);
    let ghost p = views(present@);
    let ghost start = error_views(errors@);
    let ghost f = |i: int| missing_placeholder(row, d[i], p);
    let mut i: usize = 0;
    while i < declared.len()
        invariant
            i <= declared.len(),
            d == views(declared@),
            p == views(present@),
            f == (|i: int| missing_placeholder(row, d[i], p)),
            error_views(errors@) == start + Seq::new(i as nat, f).flatten(),
        decreases declared.len() - i,
    {
        proof {
            lemma_new_flatten_push(i as nat, f);
        }
        assert(d[i as int] == declared@[i as int]@);
        if !contains_string(&present, declared[i].as_str()) {
            let mut message = "placeholder {".to_string();
            push_str(&mut message, declared[i].as_str());
            push_str(&mut message, "} missing from template");
            push_error(errors, ValidationError::at("prompts.csv", row, "variables", message));
        }
        assert(error_views(errors@) =~= start + Seq::new((i + 1) as nat, f).flatten());
        i += 1;
    }
    let ghost mid = error_views(errors@);
    let ghost g = |j: int| undeclared_placeholder(row, p[j], d);
    let mut j: usize = 0;
    while j < present.len()
        invariant
            j <= present.len(),
            d == views(declared@),
            p == views(present@),
            g == (|j: int| undeclared_placeholder(row, p[j], d)),
            error_views(errors@) == mid + Seq::new(j as nat, g).flatten(),
        decreases present.len() - j,
    {
        proof {
            lemma_new_flatten_push(j as nat, g);
        }
        assert(p[j as int] == present@[j as int]@);
        if !contains_string(&declared, present[j].as_str()) {
            let mut message = "undeclared placeholder {".to_string();
            push_str(&mut message, present[j].as_str());
            push_str(&mut message, "}");
            push_error(errors, ValidationError::at("prompts.csv", row, "template_key", message));
        }
        assert(error_views(errors@) =~= mid + Seq::new((j + 1) as nat, g).flatten());
        j += 1;
    }
    assert(Seq::new(d.len(), f) =~= Seq::new(d.len(), |i: int| missing_placeholder(row, d[i], p)));
    assert(Seq::new(p.len(), g) =~= Seq::new(p.len(), |j: int| undeclared_placeholder(row, p[j], d)));
    assert(error_views(errors@) =~= start + placeholder_errors(row, variables@, template@));
}

} // verus!
