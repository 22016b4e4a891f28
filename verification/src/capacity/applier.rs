//! Estate model names and the Modelfile a recipe is applied with.
use vstd::prelude::*;

use crate::capacity::profile::InferenceRecipe;
use crate::text::{
    chars_eq, chars_of, decimal, ends_with, ends_with_chars, first_idx, is_white, lemma_first_idx_bounds,
    push_decimal, push_str, slice_range, string_of, trim, trim_end, trim_start, trimmed,
};

verus! {

/// Tag of the temporary model the optimizer benchmarks with.
pub const BENCH_MODEL_TAG: &'static str = "lokai-bench-opt";

/// The model name before its first `:` (the whole name when it has none).
pub open spec fn before_colon(s: Seq<char>) -> Seq<char> {
    let i = first_idx(s, ':');
    if i < 0 {
        s
    } else {
        s.take(i)
    }
}

/// `s` without any stack of trailing `-estate` suffixes.
pub open spec fn strip_estate(s: Seq<char>) -> Seq<char>
    decreases s.len(),
{
    if ends_with(s, "-estate"@) && "-estate"@.len() > 0 {
        strip_estate(s.take(s.len() - "-estate"@.len()))
    } else {
        s
    }
}

/// The base stem of a model: tag dropped, trimmed, estate suffixes removed.
pub open spec fn base_stem(model: Seq<char>) -> Seq<char> {
    strip_estate(trim(before_colon(model)))
}

fn before_colon_exec(s: &[char]) -> (r: Vec<char>)
    ensures
        r@ == before_colon(s@),
{
    proof {
        lemma_first_idx_bounds(s@, ':');
    }
    let mut i: usize = 0;
    while i < s.len() && s[i] != ':'
        invariant
            i <= s@.len(),
            forall|j: int| 0 <= j < i ==> s@[j] != ':',
            -1 <= first_idx(s@, ':') < s@.len(),
            first_idx(s@, ':') >= 0 ==> s@[first_idx(s@, ':')] == ':',
            forall|j: int| 0 <= j < first_idx(s@, ':') ==> s@[j] != ':',
            first_idx(s@, ':') < 0 ==> forall|j: int| 0 <= j < s@.len() ==> s@[j] != ':',
        decreases s.len() - i,
    {
        i = i + 1;
    }
    if i == s.len() {
        proof {
            let f = first_idx(s@, ':');
            if f >= 0 {
                assert(s@[f] != ':');
            }
        }
        assert(s@.subrange(0, i as int) =~= s@);
    } else {
        proof {
            let f = first_idx(s@, ':');
            if f < 0 {
                assert(s@[i as int] != ':');
            } else if f < i {
                assert(s@[f] != ':');
            } else if f > i {
                assert(s@[i as int] != ':');
            }
        }
        assert(s@.subrange(0, i as int) =~= s@.take(i as int));
    }
    slice_range(s, 0, i)
}

/// Strip `:tag` and any stacked `-estate` suffixes so re-optimize is idempotent.
pub fn estate_base_stem(base_model: &str) -> (r: String)
    ensures
        r@ == base_stem(base_model@),
{
    proof {
        reveal_strlit("-estate");
    }
    let c = chars_of(base_model);
    let head = before_colon_exec(c.as_slice());
    let t = trimmed(head.as_slice());
    let suffix = chars_of("-estate");
    let mut n: usize = t.len();
    assert(t@.take(n as int) =~= t@);
    while n >= 7 && ends_with_chars(slice_range(t.as_slice(), 0, n).as_slice(), suffix.as_slice())
        invariant
            n <= t@.len(),
            suffix@ == "-estate"@,
            suffix@.len() == 7,
            strip_estate(t@) == strip_estate(t@.take(n as int)),
        decreases n,
    {
        assert(t@.take(n as int).take(n - 7) =~= t@.take(n - 7));
        n = n - 7;
    }
    let prefix = slice_range(t.as_slice(), 0, n);
    assert(prefix@ =~= t@.take(n as int));
    proof {
        if n < 7 {
            assert(!ends_with(t@.take(n as int), "-estate"@));
        }
    }
    string_of(prefix.as_slice())
}

/// The estate tag of a model: its base stem with one `-estate`.
pub fn estate_model_name(base_model: &str) -> (r: String)
    ensures
        r@ == base_stem(base_model@) + "-estate"@,
{
    let mut s = estate_base_stem(base_model);
    push_str(&mut s, "-estate");
    s
}

/// A tag the optimizer made: the bench tag, or an estate tag.
pub open spec fn estate_or_bench(name: Seq<char>) -> bool {
    let tag = before_colon(name);
    tag == BENCH_MODEL_TAG@ || ends_with(tag, "-estate"@)
}

pub fn is_estate_or_bench_tag(name: &str) -> (r: bool)
    ensures
        r == estate_or_bench(name@),
{
    let c = chars_of(name);
    let tag = before_colon_exec(c.as_slice());
    let bench = chars_of(BENCH_MODEL_TAG);
    let suffix = chars_of("-estate");
    chars_eq(tag.as_slice(), bench.as_slice()) || ends_with_chars(tag.as_slice(), suffix.as_slice())
}

/// The Modelfile of a recipe: its base model and context size, and the GPU
/// layer count when set.
pub open spec fn modelfile_text(base_model: Seq<char>, num_ctx: u32, num_gpu: Option<u32>) -> Seq<char> {
    let head = "FROM "@ + base_model + "\n"@ + "PARAMETER num_ctx "@ + decimal(num_ctx as nat);
    match num_gpu {
        Some(n) => head + "\n"@ + "PARAMETER num_gpu "@ + decimal(n as nat),
        None => head,
    }
}

pub fn render_modelfile(recipe: &InferenceRecipe) -> (r: String)
    ensures
        r@ == modelfile_text(recipe.base_model@, recipe.num_ctx, recipe.num_gpu),
{
    let mut s = String::from_str("FROM ");
    push_str(&mut s, recipe.base_model.as_str());
    push_str(&mut s, "\n");
    push_str(&mut s, "PARAMETER num_ctx ");
    push_decimal(&mut s, recipe.num_ctx as u128);
    if let Some(n) = recipe.num_gpu {
        push_str(&mut s, "\n");
        push_str(&mut s, "PARAMETER num_gpu ");
        push_decimal(&mut s, n as u128);
    }
    s
}

/// How a Modelfile path is shown.
pub fn modelfile_path_display(path: &str) -> (r: String)
    ensures
        r@ == path@,
{
    String::from_str(path)
}

/// Failure to apply a recipe.
#[derive(Debug)]
pub enum ApplyError {
    Client(String),
    Io(String),
    Path(String),
}

impl ApplyError {
    pub fn message(&self) -> (r: String)
        ensures
            r@ == match *self {
                ApplyError::Client(m) => "client: "@ + m@,
                ApplyError::Io(m) => "io: "@ + m@,
                ApplyError::Path(m) => "path: "@ + m@,
            },
    {
        let (head, m) = match self {
            ApplyError::Client(m) => ("client: ", m),
            ApplyError::Io(m) => ("io: ", m),
            ApplyError::Path(m) => ("path: ", m),
        };
        let mut s = String::from_str(head);
        push_str(&mut s, m.as_str());
        s
    }
}

proof fn lemma_strip_estate_no_suffix(s: Seq<char>)
    ensures
        !ends_with(strip_estate(s), "-estate"@),
        strip_estate(s).len() <= s.len(),
        strip_estate(s) == s.take(strip_estate(s).len() as int),
    decreases s.len(),
{
    reveal_strlit("-estate");
    if ends_with(s, "-estate"@) {
        lemma_strip_estate_no_suffix(s.take(s.len() - 7));
        assert(s.take(s.len() - 7).take(strip_estate(s).len() as int) =~= s.take(
            strip_estate(s).len() as int,
        ));
    } else {
        assert(s.take(s.len() as int) =~= s);
    }
}

proof fn lemma_strip_estate_append(s: Seq<char>)
    requires
        !ends_with(s, "-estate"@),
    ensures
        strip_estate(s + "-estate"@) == s,
{
    reveal_strlit("-estate");
    let t = s + "-estate"@;
    assert(t.subrange(t.len() - 7, t.len() as int) =~= "-estate"@);
    assert(t.take(t.len() - 7) =~= s);
    assert(strip_estate(s) == s);
}

/// Naming a model's estate tag twice gives the same tag: re-optimizing never
/// stacks suffixes.
pub proof fn lemma_estate_name_idempotent(model: Seq<char>)
    ensures
        base_stem(base_stem(model) + "-estate"@) + "-estate"@ == base_stem(model) + "-estate"@,
{
    reveal_strlit("-estate");
    let stem = base_stem(model);
    let t = trim(before_colon(model));
    lemma_strip_estate_no_suffix(t);
    let name = stem + "-estate"@;
    assert(name.len() == stem.len() + 7);
    assert(forall|j: int| 0 <= j < name.len() ==> name[j] != ':') by {
        lemma_no_colon_before(model);
        assert forall|j: int| 0 <= j < name.len() implies name[j] != ':' by {
            if j < stem.len() {
                assert(name[j] == t[j]);
                lemma_trim_chars(before_colon(model));
            } else {
                assert(name[j] == "-estate"@[j - stem.len()]);
            }
        }
    }
    lemma_no_colon_whole(name);
    lemma_trim_keeps(stem, before_colon(model));
    lemma_strip_estate_append(stem);
}

/// `before_colon` leaves no colon.
proof fn lemma_no_colon_before(s: Seq<char>)
    ensures
        forall|j: int| 0 <= j < before_colon(s).len() ==> before_colon(s)[j] != ':',
{
    lemma_first_idx_bounds(s, ':');
}

/// A text without a colon is its own part before the colon.
proof fn lemma_no_colon_whole(s: Seq<char>)
    requires
        forall|j: int| 0 <= j < s.len() ==> s[j] != ':',
    ensures
        before_colon(s) == s,
{
    crate::text::lemma_first_idx_absent(s, ':');
}

/// Trimming keeps only characters of the text.
proof fn lemma_trim_chars(s: Seq<char>)
    ensures
        forall|j: int| 0 <= j < trim(s).len() ==> exists|k: int| 0 <= k < s.len() && s[k] == #[trigger] trim(s)[j],
{
    crate::text::lemma_trim_start_len(s);
    let a = trim_start(s);
    lemma_trim_end_prefix(a);
    assert forall|j: int| 0 <= j < trim(s).len() implies exists|k: int| 0 <= k < s.len() && s[k] == #[trigger] trim(s)[j] by {
        let off = s.len() - a.len();
        assert(trim(s)[j] == a[j]);
        assert(a[j] == s[off + j]);
    }
}

proof fn lemma_trim_end_prefix(s: Seq<char>)
    ensures
        trim_end(s).len() <= s.len(),
        trim_end(s) == s.take(trim_end(s).len() as int),
        trim_end(s).len() > 0 ==> !is_white(trim_end(s).last()),
    decreases s.len(),
{
    if s.len() > 0 && is_white(s.last()) {
        lemma_trim_end_prefix(s.drop_last());
        assert(s.drop_last().take(trim_end(s).len() as int) =~= s.take(trim_end(s).len() as int));
    } else {
        assert(s.take(s.len() as int) =~= s);
    }
}

/// A stem cut from a trimmed text, with `-estate` appended, is already trimmed.
proof fn lemma_trim_keeps(stem: Seq<char>, x: Seq<char>)
    requires
        stem == strip_estate(trim(x)),
    ensures
        trim(stem + "-estate"@) == stem + "-estate"@,
{
    reveal_strlit("-estate");
    let t = trim(x);
    let name = stem + "-estate"@;
    lemma_strip_estate_no_suffix(t);
    assert(name.len() > 0);
    assert(!is_white(name.last())) by {
        assert(name.last() == 'e');
    }
    assert(!is_white(name[0])) by {
        if stem.len() > 0 {
            assert(name[0] == stem[0]);
            assert(stem[0] == t[0]);
            lemma_trimmed_first(x);
        } else {
            assert(name[0] == '-');
        }
    }
    assert(trim_start(name) == name);
    assert(trim_end(name) == name);
}

proof fn lemma_trimmed_first(x: Seq<char>)
    ensures
        trim(x).len() > 0 ==> !is_white(trim(x)[0]),
{
    let a = trim_start(x);
    crate::text::lemma_trim_start_len(x);
    lemma_trim_end_prefix(a);
    if trim(x).len() > 0 {
        assert(trim(x)[0] == a[0]);
    }
}

proof fn lemma_no_white_trim(s: Seq<char>)
    requires
        forall|j: int| 0 <= j < s.len() ==> !is_white(s[j]),
    ensures
        trim(s) == s,
{
    assert(trim_start(s) == s);
    assert(trim_end(s) == s);
}

/// Each character of a base stem is a character of the model, and none is a colon.
proof fn lemma_stem_chars(model: Seq<char>)
    ensures
        forall|j: int| 0 <= j < base_stem(model).len() ==> base_stem(model)[j] != ':',
        forall|j: int| 0 <= j < base_stem(model).len() ==> exists|k: int|
            0 <= k < model.len() && model[k] == #[trigger] base_stem(model)[j],
{
    let b = before_colon(model);
    let t = trim(b);
    let stem = base_stem(model);
    lemma_strip_estate_no_suffix(t);
    lemma_no_colon_before(model);
    lemma_trim_chars(b);
    lemma_first_idx_bounds(model, ':');
    assert forall|j: int| 0 <= j < stem.len() implies stem[j] != ':' && exists|k: int|
        0 <= k < model.len() && model[k] == #[trigger] stem[j] by {
        assert(stem[j] == t[j]);
        let k = choose|k: int| 0 <= k < b.len() && b[k] == #[trigger] t[j];
        assert(b[k] == model[k]);
    }
}

/// The estate name of any model holds no `:` and ends in exactly one
/// `-estate`: its stem does not end in `-estate` itself.
pub proof fn lemma_estate_name_shape(model: Seq<char>)
    ensures
        forall|j: int| 0 <= j < (base_stem(model) + "-estate"@).len() ==> (base_stem(model) + "-estate"@)[j] != ':',
        ends_with(base_stem(model) + "-estate"@, "-estate"@),
        !ends_with(base_stem(model), "-estate"@),
{
    reveal_strlit("-estate");
    let stem = base_stem(model);
    let name = stem + "-estate"@;
    lemma_stem_chars(model);
    lemma_strip_estate_no_suffix(trim(before_colon(model)));
    assert forall|j: int| 0 <= j < name.len() implies name[j] != ':' by {
        if j < stem.len() {
            assert(name[j] == stem[j]);
        } else {
            assert(name[j] == "-estate"@[j - stem.len()]);
        }
    }
    assert(name.subrange(name.len() - 7, name.len() as int) =~= "-estate"@);
}

/// A stem without colon, white space or `-estate` ending is the stem of its
/// estate tag with any `:tag` after it.
proof fn lemma_stem_of_tagged(stem: Seq<char>, tag: Seq<char>)
    requires
        forall|j: int| 0 <= j < stem.len() ==> stem[j] != ':' && !is_white(stem[j]),
        !ends_with(stem, "-estate"@),
    ensures
        base_stem(stem + "-estate:"@ + tag) == stem,
{
    reveal_strlit("-estate");
    reveal_strlit("-estate:");
    let name = stem + "-estate"@;
    let full = stem + "-estate:"@ + tag;
    assert forall|j: int| 0 <= j < name.len() implies full[j] == name[j] && name[j] != ':' && !is_white(name[j]) by {
        if j >= stem.len() {
            assert(name[j] == "-estate"@[j - stem.len()]);
            assert(full[j] == "-estate:"@[j - stem.len()]);
        }
    }
    assert(full[name.len() as int] == ':');
    crate::text::lemma_first_idx_bounds(full, ':');
    let f = first_idx(full, ':');
    if f < name.len() {
        assert(full[f] == name[f]);
    }
    assert(f == name.len());
    assert(before_colon(full) =~= name);
    lemma_no_white_trim(name);
    lemma_strip_estate_append(stem);
}

/// For a model name without white space, its base stem holds no `:`, does not
/// end in `-estate`, is its own stem, and is the stem of its estate tag with
/// any `:tag` after it.
pub proof fn lemma_base_stem_fixed(model: Seq<char>, tag: Seq<char>)
    requires
        forall|j: int| 0 <= j < model.len() ==> !is_white(model[j]),
    ensures
        forall|j: int| 0 <= j < base_stem(model).len() ==> base_stem(model)[j] != ':',
        !ends_with(base_stem(model), "-estate"@),
        base_stem(base_stem(model)) == base_stem(model),
        base_stem(base_stem(model) + "-estate:"@ + tag) == base_stem(model),
{
    let stem = base_stem(model);
    lemma_stem_chars(model);
    lemma_strip_estate_no_suffix(trim(before_colon(model)));
    assert forall|j: int| 0 <= j < stem.len() implies stem[j] != ':' && !is_white(stem[j]) by {
        let k = choose|k: int| 0 <= k < model.len() && model[k] == #[trigger] stem[j];
    }
    lemma_no_colon_whole(stem);
    lemma_no_white_trim(stem);
    assert(strip_estate(stem) == stem);
    lemma_stem_of_tagged(stem, tag);
}

} // verus!
