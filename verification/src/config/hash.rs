//! The configuration hash recorded with every run: FNV-1a over the sorted
//! list of scenario files, each file's path followed by its text.

use crate::config::tables::Manifest;
use crate::text::{hex_digit, hex_fixed, lex_order, push_hex_fixed, push_str, sort_strings, str_eq, views};
use vstd::prelude::*;

verus! {

/// The FNV-1a 64-bit offset basis.
pub const FNV_OFFSET: u64 = 0xcbf29ce484222325;

/// The FNV-1a 64-bit prime.
pub const FNV_PRIME: u64 = 0x100000001b3;

/// One FNV-1a step.
pub open spec fn fnv_step(h: u64, b: u8) -> u64 {
    vstd::wrapping::u64_specs::wrapping_mul(h ^ (b as u64), FNV_PRIME)
}

/// FNV-1a steps over `bytes`, first to last.
pub open spec fn fnv_fold(h: u64, bytes: Seq<u8>) -> u64
    decreases bytes.len(),
{
    if bytes.len() == 0 {
        h
    } else {
        fnv_fold(fnv_step(h, bytes[0]), bytes.drop_first())
    }
}

/// The hasher state after writing `bytes`: a zero state starts from the
/// offset basis.
pub open spec fn fnv_write(h: u64, bytes: Seq<u8>) -> u64 {
    fnv_fold(if h == 0 { FNV_OFFSET } else { h }, bytes)
}

/// Feeds `bytes` to an FNV-1a hasher in state `h`.
pub fn fnv_write_bytes(h: u64, bytes: &[u8]) -> (r: u64)
    ensures
        r == fnv_write(h, bytes@),
{
    let mut state: u64 = if h == 0 {
        FNV_OFFSET
    } else {
        h
    };
    let ghost start = state;
    let mut i: usize = 0;
    assert(bytes@.skip(0) =~= bytes@);
    while i < bytes.len()
        invariant
            i <= bytes@.len(),
            fnv_fold(start, bytes@) == fnv_fold(state, bytes@.skip(i as int)),
            start == (if h == 0 { FNV_OFFSET } else { h }),
        decreases bytes.len() - i,
    {
        assert(bytes@.skip(i as int).drop_first() =~= bytes@.skip(i + 1));
        state = (state ^ (bytes[i] as u64)).wrapping_mul(FNV_PRIME);
        i += 1;
    }
    state
}

/// The optional paths of a manifest, as a sequence.
pub open spec fn optional_path(p: Option<String>) -> Seq<Seq<char>> {
    match p {
        Some(s) => seq![s@],
        None => seq![],
    }
}

/// The files that make up a scenario: the manifest, each table, and each
/// locale table.
pub open spec fn manifest_files(m: &Manifest) -> Seq<Seq<char>> {
    seq![
        "scenario.toml"@,
        m.tables.stats@,
        m.tables.resources@,
        m.tables.actions@,
        m.tables.events@,
        m.tables.balance@,
        m.tables.panels@,
    ] + optional_path(m.tables.event_weights) + optional_path(m.tables.prompts) + m.locales@.map_values(
        |p: (String, String)| p.1@,
    )
}

/// The text of `path` among `(path, text)` pairs: the first pair with that
/// path.
pub open spec fn text_for(texts: Seq<(String, String)>, path: Seq<char>) -> Option<Seq<char>>
    decreases texts.len(),
{
    if texts.len() == 0 {
        None
    } else if texts[0].0@ == path {
        Some(texts[0].1@)
    } else {
        text_for(texts.drop_first(), path)
    }
}

/// The hasher state after the given files, each path then its text (the
/// manifest text for `scenario.toml`); `Err` with the first file that has
/// no text.
pub open spec fn hash_files(
    h: u64,
    files: Seq<Seq<char>>,
    manifest_text: Seq<char>,
    texts: Seq<(String, String)>,
) -> Result<u64, Seq<char>>
    decreases files.len(),
{
    if files.len() == 0 {
        Ok(h)
    } else {
        let file = files[0];
        let h1 = fnv_write(h, vstd::utf8::encode_utf8(file));
        let contents = if file == "scenario.toml"@ {
            Some(manifest_text)
        } else {
            text_for(texts, file)
        };
        match contents {
            Some(t) => hash_files(fnv_write(h1, vstd::utf8::encode_utf8(t)), files.drop_first(), manifest_text, texts),
            None => Err(file),
        }
    }
}

/// The configuration hash as sixteen lower-case hex digits, or the message
/// for the first file without a text.
pub open spec fn config_hash(m: &Manifest, manifest_text: Seq<char>, texts: Seq<(String, String)>) -> Result<Seq<char>, Seq<char>> {
    match hash_files(0, manifest_files(m).sort_by(lex_order()), manifest_text, texts) {
        Ok(h) => Ok(hex_fixed(h as nat, 16)),
        Err(file) => Err("reading "@ + file + " for config hash"@),
    }
}

/// The configuration hash does not depend on the order in which the
/// manifest lists its locales: two manifests that differ only in that order
/// (the same locale paths, as a multiset) hash alike.
pub proof fn lemma_hash_ignores_locale_order(
    m1: &Manifest,
    m2: &Manifest,
    manifest_text: Seq<char>,
    texts: Seq<(String, String)>,
)
    requires
        m1.tables == m2.tables,
        m1.locales@.map_values(|p: (String, String)| p.1@).to_multiset() == m2.locales@.map_values(
            |p: (String, String)| p.1@,
        ).to_multiset(),
    ensures
        config_hash(m1, manifest_text, texts) == config_hash(m2, manifest_text, texts),
{
    let l1 = m1.locales@.map_values(|p: (String, String)| p.1@);
    let l2 = m2.locales@.map_values(|p: (String, String)| p.1@);
    let base = seq![
        "scenario.toml"@,
        m1.tables.stats@,
        m1.tables.resources@,
        m1.tables.actions@,
        m1.tables.events@,
        m1.tables.balance@,
        m1.tables.panels@,
    ] + optional_path(m1.tables.event_weights) + optional_path(m1.tables.prompts);
    assert(manifest_files(m1) == base + l1);
    assert(manifest_files(m2) == base + l2);
    vstd::seq_lib::lemma_multiset_commutative(base, l1);
    vstd::seq_lib::lemma_multiset_commutative(base, l2);
    let f1 = manifest_files(m1);
    let f2 = manifest_files(m2);
    assert(f1.to_multiset() == f2.to_multiset());
    crate::text::lemma_lex_le_total_ordering();
    assert(lex_order() == (|a: Seq<char>, b: Seq<char>| crate::text::lex_le(a, b)));
    f1.lemma_sort_by_ensures(lex_order());
    f2.lemma_sort_by_ensures(lex_order());
    vstd::seq_lib::lemma_sorted_unique(f1.sort_by(lex_order()), f2.sort_by(lex_order()), lex_order());
}

/// A lower-case hexadecimal digit.
pub open spec fn is_lower_hex(c: char) -> bool {
    ('0' <= c && c <= '9') || ('a' <= c && c <= 'f')
}

/// Whether every file but the manifest has a text.
pub open spec fn all_texts_present(files: Seq<Seq<char>>, texts: Seq<(String, String)>) -> bool {
    forall|i: int| 0 <= i < files.len() && files[i] != "scenario.toml"@ ==> (#[trigger] text_for(texts, files[i])) is Some
}

proof fn lemma_hex_fixed_shape(n: nat, k: nat)
    ensures
        hex_fixed(n, k).len() == k,
        forall|i: int| 0 <= i < k ==> is_lower_hex(#[trigger] hex_fixed(n, k)[i]),
    decreases k,
{
    if k > 0 {
        lemma_hex_fixed_shape(n / 16, (k - 1) as nat);
        let d = n % 16;
        assert(is_lower_hex(hex_digit(d)));
    }
}

proof fn lemma_hash_files_outcome(h: u64, files: Seq<Seq<char>>, manifest_text: Seq<char>, texts: Seq<(String, String)>)
    ensures
        hash_files(h, files, manifest_text, texts) is Ok <==> all_texts_present(files, texts),
        hash_files(h, files, manifest_text, texts) matches Err(f) ==> files.contains(f) && f != "scenario.toml"@
            && text_for(texts, f) is None,
    decreases files.len(),
{
    if files.len() > 0 {
        let file = files[0];
        let h1 = fnv_write(h, vstd::utf8::encode_utf8(file));
        let rest = files.drop_first();
        let contents = if file == "scenario.toml"@ {
            Some(manifest_text)
        } else {
            text_for(texts, file)
        };
        match contents {
            Some(t) => {
                lemma_hash_files_outcome(fnv_write(h1, vstd::utf8::encode_utf8(t)), rest, manifest_text, texts);
                if all_texts_present(rest, texts) {
                    assert forall|i: int| 0 <= i < files.len() && files[i] != "scenario.toml"@ implies (#[trigger] text_for(texts, files[i])) is Some by {
                        if i > 0 {
                            assert(files[i] == rest[i - 1]);
                        }
                    }
                }
                if all_texts_present(files, texts) {
                    assert forall|i: int| 0 <= i < rest.len() && rest[i] != "scenario.toml"@ implies (#[trigger] text_for(texts, rest[i])) is Some by {
                        assert(rest[i] == files[i + 1]);
                    }
                }
                if let Err(f) = hash_files(h, files, manifest_text, texts) {
                    let j = choose|j: int| 0 <= j < rest.len() && rest[j] == f;
                    assert(files[j + 1] == f);
                }
            },
            None => {
                assert(files[0] == file);
            },
        }
    }
}

/// The configuration hash is sixteen lower-case hex digits, and it is had
/// exactly when every referenced file other than the manifest has a text;
/// otherwise the error names such a file.
pub proof fn lemma_config_hash_shape(m: &Manifest, manifest_text: Seq<char>, texts: Seq<(String, String)>)
    ensures
        config_hash(m, manifest_text, texts) is Ok <==> all_texts_present(manifest_files(m), texts),
        config_hash(m, manifest_text, texts) matches Ok(h) ==> h.len() == 16 && forall|i: int|
            0 <= i < 16 ==> is_lower_hex(#[trigger] h[i]),
        config_hash(m, manifest_text, texts) matches Err(e) ==> exists|f: Seq<char>|
            #![trigger manifest_files(m).contains(f)]
            manifest_files(m).contains(f) && f != "scenario.toml"@ && text_for(texts, f) is None && e
                == "reading "@ + f + " for config hash"@,
{
    let files = manifest_files(m);
    crate::text::lemma_lex_le_total_ordering();
    assert(lex_order() == (|a: Seq<char>, b: Seq<char>| crate::text::lex_le(a, b)));
    files.lemma_sort_by_ensures(lex_order());
    let sorted = files.sort_by(lex_order());
    lemma_hash_files_outcome(0, sorted, manifest_text, texts);
    assert forall|f: Seq<char>| #[trigger] files.contains(f) <==> sorted.contains(f) by {
        if files.contains(f) {
            assert(files.to_multiset().count(f) > 0) by {
                vstd::seq_lib::to_multiset_contains(files, f);
            }
            assert(sorted.to_multiset().count(f) > 0);
            vstd::seq_lib::to_multiset_contains(sorted, f);
        }
        if sorted.contains(f) {
            vstd::seq_lib::to_multiset_contains(sorted, f);
            assert(files.to_multiset().count(f) > 0);
            vstd::seq_lib::to_multiset_contains(files, f);
        }
    }
    if all_texts_present(files, texts) {
        assert forall|i: int| 0 <= i < sorted.len() && sorted[i] != "scenario.toml"@ implies (#[trigger] text_for(texts, sorted[i])) is Some by {
            assert(sorted.contains(sorted[i]));
            let j = choose|j: int| 0 <= j < files.len() && files[j] == sorted[i];
        }
    }
    if all_texts_present(sorted, texts) {
        assert forall|i: int| 0 <= i < files.len() && files[i] != "scenario.toml"@ implies (#[trigger] text_for(texts, files[i])) is Some by {
            assert(files.contains(files[i]));
            let j = choose|j: int| 0 <= j < sorted.len() && sorted[j] == files[i];
        }
    }
    if let Ok(h) = hash_files(0, sorted, manifest_text, texts) {
        lemma_hex_fixed_shape(h as nat, 16);
    }
}

pub fn text_of<'a>(texts: &'a Vec<(String, String)>, path: &str) -> (r: Option<&'a String>)
    ensures
        match r {
            Some(t) => text_for(texts@, path@) == Some(t@),
            None => text_for(texts@, path@) is None,
        },
{
    let mut i: usize = 0;
    assert(texts@.skip(0) =~= texts@);
    while i < texts.len()
        invariant
            i <= texts@.len(),
            text_for(texts@, path@) == text_for(texts@.skip(i as int), path@),
        decreases texts.len() - i,
    {
        assert(texts@.skip(i as int)[0] == texts@[i as int]);
        if str_eq(texts[i].0.as_str(), path) {
            return Some(&texts[i].1);
        }
        assert(texts@.skip(i as int).drop_first() =~= texts@.skip(i + 1));
        i += 1;
    }
    None
}

fn manifest_file_list(m: &Manifest) -> (files: Vec<String>)
    ensures
        views(files@) == manifest_files(m),
{
    let mut files: Vec<String> = Vec::new();
    files.push("scenario.toml".to_string());
    files.push(m.tables.stats.clone());
    files.push(m.tables.resources.clone());
    files.push(m.tables.actions.clone());
    files.push(m.tables.events.clone());
    files.push(m.tables.balance.clone());
    files.push(m.tables.panels.clone());
    let ghost base = views(files@);
    if let Some(path) = &m.tables.event_weights {
        files.push(path.clone());
    }
    let ghost with_weights = views(files@);
    assert(with_weights =~= base + optional_path(m.tables.event_weights));
    if let Some(path) = &m.tables.prompts {
        files.push(path.clone());
    }
    let ghost with_prompts = views(files@);
    assert(with_prompts =~= with_weights + optional_path(m.tables.prompts));
    let ghost lv = m.locales@.map_values(|p: (String, String)| p.1@);
    let mut i: usize = 0;
    assert(views(files@) =~= with_prompts + lv.take(0));
    while i < m.locales.len()
        invariant
            i <= m.locales@.len(),
            lv == m.locales@.map_values(|p: (String, String)| p.1@),
            views(files@) == with_prompts + lv.take(i as int),
        decreases m.locales.len() - i,
    {
        let ghost before = files@;
        files.push(m.locales[i].1.clone());
        assert(views(files@) =~= views(before).push(m.locales@[i as int].1@));
        assert(lv.take(i + 1) =~= lv.take(i as int).push(lv[i as int]));
        assert(views(files@) =~= with_prompts + lv.take(i + 1));
        i += 1;
    }
    assert(lv.take(lv.len() as int) =~= lv);
    assert(views(files@) =~= manifest_files(m));
    files
}

/// The text of the file at `path` among a scenario's `(path, text)` files,
/// or the error when it has none.
pub fn embedded_file_text(files: &Vec<(String, String)>, path: &str) -> (r: Result<String, String>)
    ensures
        match r {
            Ok(t) => text_for(files@, path@) == Some(t@),
            Err(e) => text_for(files@, path@) is None && e@ == "embedded scenario file "@ + path@
                + " not found"@,
        },
{
    match text_of(files, path) {
        Some(t) => Ok(t.clone()),
        None => {
            let mut m = "embedded scenario file ".to_string();
            push_str(&mut m, path);
            push_str(&mut m, " not found");
            Err(m)
        },
    }
}

/// The configuration hash of a scenario: FNV-1a over its files in sorted
/// order, each path followed by its text, as sixteen hex digits. `texts`
/// holds the text of each file by path; the manifest's own text is
/// `manifest_text`.
pub fn stable_config_hash_from_texts(
    manifest: &Manifest,
    manifest_text: &str,
    texts: &Vec<(String, String)>,
) -> (r: Result<String, String>)
    ensures
        match r {
            Ok(h) => config_hash(manifest, manifest_text@, texts@) == Ok::<Seq<char>, Seq<char>>(h@),
            Err(e) => config_hash(manifest, manifest_text@, texts@) == Err::<Seq<char>, Seq<char>>(e@),
        },
{
    let files = sort_strings(manifest_file_list(manifest));
    let ghost fs = views(files@);
    let mut h: u64 = 0;
    let mut i: usize = 0;
    assert(fs.skip(0) =~= fs);
    while i < files.len()
        invariant
            i <= files@.len(),
            fs == views(files@),
            fs == manifest_files(manifest).sort_by(lex_order()),
            hash_files(0, fs, manifest_text@, texts@) == hash_files(
                h,
                fs.skip(i as int),
                manifest_text@,
                texts@,
            ),
        decreases files.len() - i,
    {
        let file = files[i].as_str();
        assert(fs.skip(i as int)[0] == file@);
        assert(fs.skip(i as int).drop_first() =~= fs.skip(i + 1));
        h = fnv_write_bytes(h, file.as_bytes());
        if str_eq(file, "scenario.toml") {
            h = fnv_write_bytes(h, manifest_text.as_bytes());
        } else {
            match text_of(texts, file) {
                Some(t) => {
                    h = fnv_write_bytes(h, t.as_str().as_bytes());
                },
                None => {
                    let mut message = "reading ".to_string();
                    push_str(&mut message, file);
                    push_str(&mut message, " for config hash");
                    return Err(message);
                },
            }
        }
        i += 1;
    }
    let mut out = String::new();
    push_hex_fixed(&mut out, h, 16);
    Ok(out)
}

} // verus!
