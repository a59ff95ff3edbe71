//! The streaming pipeline: which filter stages a stream passes through, in
//! what order, which of them spawn a process, and what content type comes out.
use vstd::prelude::*;
use vstd::string::{StrSliceExecFns, StringExecFns};

verus! {

/// One filter: a command template, and the content type that its output has
/// when it differs from its input.  An empty command is an identity stage.
#[derive(Debug)]
pub struct FilterStage {
    pub command: String,
    pub content_type: Option<String>,
}

/// What a stream needs before it starts: the commands to spawn, chained from
/// the tuner's output, and the content type of what the last one writes.
#[derive(Debug)]
pub struct StreamPlan {
    pub commands: Vec<String>,
    pub content_type: String,
    pub accepts_byte_ranges: bool,
}

/// The content type of a raw tuner stream.
pub open spec fn raw_content_type() -> Seq<char> {
    "video/MP2T"@
}

/// Service or program filter first, then the pre-filters, then the decoder
/// when decoding was asked for and the stream needs one, then the
/// post-filters.
pub open spec fn stage_order(
    main_filter: FilterStage,
    pre_filters: Seq<FilterStage>,
    decoder: Option<FilterStage>,
    decode: bool,
    post_filters: Seq<FilterStage>,
) -> Seq<FilterStage> {
    let middle = match decoder {
        Some(d) if decode => seq![d],
        _ => Seq::empty(),
    };
    seq![main_filter] + pre_filters + middle + post_filters
}

/// The commands that spawn a process: those of the stages that are not
/// identity stages, in order.
pub open spec fn spawned_commands(stages: Seq<FilterStage>) -> Seq<Seq<char>>
    decreases stages.len(),
{
    if stages.len() == 0 {
        Seq::empty()
    } else {
        let rest = spawned_commands(stages.drop_last());
        if stages.last().command@.len() == 0 {
            rest
        } else {
            rest.push(stages.last().command@)
        }
    }
}

/// The content type declared by the last stage that declares one, or the raw
/// type when none does.  Identity stages do not change the stream.
pub open spec fn content_type_of(stages: Seq<FilterStage>) -> Seq<char>
    decreases stages.len(),
{
    if stages.len() == 0 {
        raw_content_type()
    } else if stages.last().command@.len() > 0 && stages.last().content_type is Some {
        stages.last().content_type->0@
    } else {
        content_type_of(stages.drop_last())
    }
}

pub fn raw_stream_content_type() -> (r: String)
    ensures
        r@ == raw_content_type(),
{
    String::from_str("video/MP2T")
}

/// Puts the stages of a stream in their fixed order.
pub fn arrange_stages(
    main_filter: FilterStage,
    pre_filters: Vec<FilterStage>,
    decoder: Option<FilterStage>,
    decode: bool,
    post_filters: Vec<FilterStage>,
) -> (r: Vec<FilterStage>)
    ensures
        r@ == stage_order(main_filter, pre_filters@, decoder, decode, post_filters@),
{
    let ghost pre = pre_filters@;
    let ghost post = post_filters@;
    let ghost main0 = main_filter;
    let ghost decoder0 = decoder;
    let mut pre_filters = pre_filters;
    let mut post_filters = post_filters;
    let mut stages: Vec<FilterStage> = Vec::new();
    stages.push(main_filter);
    stages.append(&mut pre_filters);
    let ghost with_pre = stages@;
    match decoder {
        Some(d) => {
            if decode {
                stages.push(d);
            }
        },
        None => {},
    }
    let ghost with_decoder = stages@;
    stages.append(&mut post_filters);
    proof {
        let middle = match decoder0 {
            Some(d) if decode => seq![d],
            _ => Seq::empty(),
        };
        assert(with_pre =~= seq![main0] + pre);
        assert(with_decoder =~= with_pre + middle);
        assert(stages@ =~= stage_order(main0, pre, decoder0, decode, post));
    }
    stages
}

/// The commands to spawn and the resulting content type.  A live stream has
/// no length, so byte ranges are never accepted.
pub fn plan_stream(stages: &Vec<FilterStage>) -> (r: StreamPlan)
    ensures
        r.commands@.len() == spawned_commands(stages@).len(),
        forall|i: int|
            0 <= i < r.commands@.len() ==> (#[trigger] r.commands@[i])@ == spawned_commands(
                stages@,
            )[i],
        r.content_type@ == content_type_of(stages@),
        !r.accepts_byte_ranges,
{
    let mut commands: Vec<String> = Vec::new();
    let mut content_type = raw_stream_content_type();
    let mut k: usize = 0;
    while k < stages.len()
        invariant
            0 <= k <= stages@.len(),
            commands@.len() == spawned_commands(stages@.subrange(0, k as int)).len(),
            forall|i: int|
                0 <= i < commands@.len() ==> (#[trigger] commands@[i])@ == spawned_commands(
                    stages@.subrange(0, k as int),
                )[i],
            content_type@ == content_type_of(stages@.subrange(0, k as int)),
        decreases stages@.len() - k,
    {
        let ghost before = commands@;
        proof {
            assert(stages@.subrange(0, k as int + 1).drop_last() =~= stages@.subrange(0, k as int));
        }
        let stage = &stages[k];
        if !stage.command.as_str().is_empty() {
            commands.push(stage.command.clone());
            match &stage.content_type {
                Some(t) => {
                    content_type = t.clone();
                },
                None => {},
            }
        }
        k = k + 1;
        proof {
            let s = stages@.subrange(0, k as int);
            assert(s.last() == stages@[k - 1]);
            assert forall|i: int| 0 <= i < commands@.len() implies (#[trigger] commands@[i])@
                == spawned_commands(s)[i] by {
                if i < before.len() {
                    assert(commands@[i] == before[i]);
                }
            }
        }
    }
    assert(stages@.subrange(0, k as int) =~= stages@);
    StreamPlan { commands, content_type, accepts_byte_ranges: false }
}

pub open spec fn is_space(c: char) -> bool {
    c == ' ' || c == '\t'
}

/// The words of a command line: its maximal runs of characters other than
/// spaces and tabs, in order.
pub open spec fn split_words(s: Seq<char>) -> Seq<Seq<char>>
    decreases s.len(),
{
    if s.len() == 0 {
        Seq::empty()
    } else {
        let w = split_words(s.drop_last());
        let c = s.last();
        if is_space(c) {
            w
        } else if s.len() >= 2 && !is_space(s[s.len() - 2]) {
            w.drop_last().push(w.last().push(c))
        } else {
            w.push(seq![c])
        }
    }
}

pub open spec fn string_views(v: Seq<String>) -> Seq<Seq<char>> {
    v.map_values(|w: String| w@)
}

/// Splits a command into the program and its arguments, without a shell.  A
/// blank command has no words: it is an identity stage.
pub fn split_command(command: &str) -> (r: Vec<String>)
    ensures
        string_views(r@) == split_words(command@),
{
    let n = command.unicode_len();
    let ghost s = command@;
    let mut words: Vec<String> = Vec::new();
    let mut in_word = false;
    let mut start: usize = 0;
    let mut i: usize = 0;
    while i < n
        invariant
            n == s.len(),
            s == command@,
            0 <= start <= i <= n,
            in_word ==> start < i && split_words(s.subrange(0, i as int)) == string_views(words@).push(
                s.subrange(start as int, i as int),
            ) && !is_space(s[i - 1]),
            !in_word ==> split_words(s.subrange(0, i as int)) == string_views(words@) && (i == 0
                || is_space(s[i - 1])),
        decreases n - i,
    {
        let c = command.get_char(i);
        let ghost before = words@;
        let ghost t = s.subrange(0, i as int + 1);
        proof {
            assert(t.drop_last() =~= s.subrange(0, i as int));
            assert(t.last() == c);
        }
        if c == ' ' || c == '\t' {
            if in_word {
                let w = String::from_str(command.substring_char(start, i));
                words.push(w);
                proof {
                    assert(string_views(words@) =~= string_views(before).push(w@));
                }
                in_word = false;
            }
        } else {
            if in_word {
                proof {
                    assert(s.subrange(start as int, i as int).push(c) =~= s.subrange(
                        start as int,
                        i as int + 1,
                    ));
                    assert(string_views(before).push(s.subrange(start as int, i as int)).drop_last()
                        =~= string_views(before));
                }
            } else {
                start = i;
                in_word = true;
                proof {
                    assert(s.subrange(start as int, i as int + 1) =~= seq![c]);
                }
            }
        }
        i = i + 1;
    }
    if in_word {
        let ghost before = words@;
        let w = String::from_str(command.substring_char(start, n));
        words.push(w);
        proof {
            assert(string_views(words@) =~= string_views(before).push(w@));
        }
    }
    assert(s.subrange(0, n as int) =~= s);
    words
}

/// A character that may stand in a placeholder's name.
pub open spec fn is_name_char(c: char) -> bool {
    ('a' <= c && c <= 'z') || ('0' <= c && c <= '9') || c == '_'
}

/// How many name characters follow position `from` of `t`.
pub open spec fn name_run(t: Seq<char>, from: int) -> int
    decreases t.len() - from,
{
    if 0 <= from < t.len() && is_name_char(t[from]) {
        1 + name_run(t, from + 1)
    } else {
        0
    }
}

/// `t` starts with a placeholder `{{name}}`; its name has `name_run(t, 2)`
/// characters.
pub open spec fn starts_with_placeholder(t: Seq<char>) -> bool {
    let k = name_run(t, 2);
    &&& t.len() >= 4
    &&& t[0] == '{'
    &&& t[1] == '{'
    &&& k > 0
    &&& 3 + k < t.len()
    &&& t[2 + k] == '}'
    &&& t[3 + k] == '}'
}

/// The value bound to `name`: the first binding with that name.
pub open spec fn lookup(bindings: Seq<(String, String)>, name: Seq<char>) -> Option<Seq<char>>
    decreases bindings.len(),
{
    if bindings.len() == 0 {
        None
    } else if bindings[0].0@ == name {
        Some(bindings[0].1@)
    } else {
        lookup(bindings.subrange(1, bindings.len() as int), name)
    }
}

/// The template with every bound placeholder replaced by its value.  Any
/// other text, unbound placeholders included, is kept as it is.
pub open spec fn render(t: Seq<char>, bindings: Seq<(String, String)>) -> Seq<char>
    decreases t.len(),
{
    if t.len() == 0 {
        Seq::empty()
    } else if starts_with_placeholder(t) && lookup(
        bindings,
        t.subrange(2, 2 + name_run(t, 2)),
    ) is Some {
        let k = name_run(t, 2);
        lookup(bindings, t.subrange(2, 2 + k))->0 + render(t.subrange(4 + k, t.len() as int), bindings)
    } else {
        seq![t[0]] + render(t.subrange(1, t.len() as int), bindings)
    }
}

fn lookup_binding<'a>(bindings: &'a Vec<(String, String)>, name: &String) -> (r: Option<&'a String>)
    ensures
        match r {
            Some(v) => lookup(bindings@, name@) == Some(v@),
            None => lookup(bindings@, name@) is None,
        },
{
    let mut k: usize = 0;
    assert(bindings@.subrange(0, bindings@.len() as int) =~= bindings@);
    while k < bindings.len()
        invariant
            0 <= k <= bindings@.len(),
            lookup(bindings@, name@) == lookup(
                bindings@.subrange(k as int, bindings@.len() as int),
                name@,
            ),
        decreases bindings@.len() - k,
    {
        let ghost rest = bindings@.subrange(k as int, bindings@.len() as int);
        proof {
            assert(rest.subrange(1, rest.len() as int) =~= bindings@.subrange(
                k as int + 1,
                bindings@.len() as int,
            ));
            assert(rest[0] == bindings@[k as int]);
        }
        if bindings[k].0 == *name {
            return Some(&bindings[k].1);
        }
        k = k + 1;
    }
    None
}

/// Counting name characters in a suffix of `s` is counting them in `s` from
/// the shifted position.
proof fn lemma_name_run_shift(s: Seq<char>, i: int, from: int)
    requires
        0 <= i <= s.len(),
        0 <= from,
    ensures
        name_run(s.subrange(i, s.len() as int), from) == if i + from <= s.len() {
            name_run_at(s, i + from)
        } else {
            0
        },
    decreases s.len() - i - from,
{
    let t = s.subrange(i, s.len() as int);
    if from < t.len() {
        lemma_name_run_shift(s, i, from + 1);
    }
}

/// `name_run` counted directly on `s` from position `at`.
spec fn name_run_at(s: Seq<char>, at: int) -> int
    decreases s.len() - at,
{
    if 0 <= at < s.len() && is_name_char(s[at]) {
        1 + name_run_at(s, at + 1)
    } else {
        0
    }
}

fn name_char_at(t: &str, j: usize) -> (r: bool)
    requires
        j < t@.len(),
    ensures
        r == is_name_char(t@[j as int]),
{
    let c = t.get_char(j);
    ('a' <= c && c <= 'z') || ('0' <= c && c <= '9') || c == '_'
}

/// Fills the placeholders of a command template (`{{sid}}`, `{{eid}}`,
/// `{{clock_pcr}}`, `{{clock_time}}`, ...) with their bound values.
pub fn render_template(template: &str, bindings: &Vec<(String, String)>) -> (r: String)
    ensures
        r@ == render(template@, bindings@),
{
    let n = template.unicode_len();
    let ghost s = template@;
    let mut out = String::new();
    let mut i: usize = 0;
    assert(s.subrange(0, n as int) =~= s);
    assert(out@ + render(s, bindings@) =~= render(s, bindings@));
    while i < n
        invariant
            n == s.len(),
            s == template@,
            0 <= i <= n,
            out@ + render(s.subrange(i as int, n as int), bindings@) == render(s, bindings@),
        decreases n - i,
    {
        let ghost t = s.subrange(i as int, n as int);
        let mut replaced = false;
        if n - i > 3 && template.get_char(i) == '{' && template.get_char(i + 1) == '{' {
            let mut j: usize = i + 2;
            while j < n && name_char_at(template, j)
                invariant
                    i + 2 <= j <= n,
                    n == s.len(),
                    s == template@,
                    name_run_at(s, i as int + 2) == (j - i - 2) + name_run_at(s, j as int),
                decreases n - j,
            {
                j = j + 1;
            }
            proof {
                lemma_name_run_shift(s, i as int, 2);
                assert(t[0] == s[i as int] && t[1] == s[i + 1]);
            }
            if j > i + 2 && n - j > 1 && template.get_char(j) == '}' && template.get_char(j + 1)
                == '}' {
                let name = String::from_str(template.substring_char(i + 2, j));
                proof {
                    assert(name_run(t, 2) == j - i - 2);
                    assert(t.subrange(2, 2 + name_run(t, 2)) =~= name@);
                    assert(t[2 + name_run(t, 2)] == s[j as int]);
                    assert(t[3 + name_run(t, 2)] == s[j + 1]);
                }
                match lookup_binding(bindings, &name) {
                    Some(v) => {
                        let ghost before = out@;
                        out.append(v.as_str());
                        proof {
                            assert(t.subrange(4 + name_run(t, 2), t.len() as int) =~= s.subrange(
                                j + 2,
                                n as int,
                            ));
                            assert(out@ + render(s.subrange(j + 2, n as int), bindings@) =~= before
                                + render(t, bindings@));
                        }
                        i = j + 2;
                        replaced = true;
                    },
                    None => {},
                }
            } else {
                proof {
                    if name_run(t, 2) > 0 && 3 + name_run(t, 2) < t.len() {
                        assert(name_run(t, 2) == j - i - 2);
                        assert(t[2 + name_run(t, 2)] == s[j as int]);
                        assert(t[3 + name_run(t, 2)] == s[j + 1]);
                    }
                }
            }
        }
        if !replaced {
            let ghost before = out@;
            let piece = template.substring_char(i, i + 1);
            out.append(piece);
            proof {
                assert(t.subrange(1, t.len() as int) =~= s.subrange(i + 1, n as int));
                assert(piece@ =~= seq![t[0]]);
            }
            i = i + 1;
        }
    }
    proof {
        assert(s.subrange(n as int, n as int) =~= Seq::<char>::empty());
        assert(out@ + Seq::<char>::empty() =~= out@);
    }
    out
}

} // verus!
