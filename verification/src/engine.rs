//! The arguments handed to ffmpeg and ImageMagick, the choice between a
//! hardware encoder and its software fallback, and the tool check that runs
//! before a job.
use vstd::prelude::*;
use crate::model::Config;
use crate::pathname::{extension, file_name, file_name_of};
use crate::profiles::{
    backend_label, key_less, key_lt, lemma_key_lt_irreflexive, lemma_key_lt_transitive,
    HardwareBackend, Profile, ProfileView,
};
use crate::runtime::{answers_backed, found_somewhere, is_on_path};
use crate::text::{
    char_is_ws, chars_of, copy_strings, decimal, decimal_string, has_at, is_ws, owned, push_str,
    replace_all, replace_all_str, str_eq,
};

verus! {

/// The result of a conversion: where it was committed and the log.
#[derive(Debug)]
pub struct Converted {
    pub output: String,
    pub log: String,
}

/// `enc` occurs in `s` as a whole whitespace-separated token.
pub open spec fn has_token(s: Seq<char>, enc: Seq<char>) -> bool {
    &&& enc.len() > 0
    &&& forall|k: int| 0 <= k < enc.len() ==> !is_ws(#[trigger] enc[k])
    &&& exists|i: int|
        #![trigger s.subrange(i, i + enc.len())]
        0 <= i && i + enc.len() <= s.len() && s.subrange(i, i + enc.len()) == enc && (i == 0
            || is_ws(s[i - 1])) && (i + enc.len() == s.len() || is_ws(s[i + enc.len()]))
}

/// Whether an `ffmpeg -encoders` listing names the encoder as one of its
/// whitespace-separated tokens (on any line).
pub fn parse_encoder_listing(listing: &str, encoder: &str) -> (r: bool)
    ensures
        r == has_token(listing@, encoder@),
{
    let s = chars_of(listing);
    let e = chars_of(encoder);
    if e.len() == 0 {
        return false;
    }
    let mut k: usize = 0;
    while k < e.len()
        invariant
            k <= e.len(),
            e@ == encoder@,
            forall|j: int| 0 <= j < k ==> !is_ws(#[trigger] e@[j]),
        decreases e.len() - k,
    {
        if char_is_ws(e[k]) {
            assert(is_ws(encoder@[k as int]));
            assert(!has_token(listing@, encoder@));
            return false;
        }
        k = k + 1;
    }
    if e.len() > s.len() {
        return false;
    }
    let mut i: usize = 0;
    while i <= s.len() - e.len()
        invariant
            e.len() <= s.len(),
            s@ == listing@,
            e@ == encoder@,
            e@.len() > 0,
            forall|j: int| 0 <= j < e.len() ==> !is_ws(#[trigger] e@[j]),
            forall|j: int|
                #![trigger s@.subrange(j, j + e@.len())]
                0 <= j < i && j + e@.len() <= s@.len() ==> !(s@.subrange(j, j + e@.len()) == e@ && (
                j == 0 || is_ws(s@[j - 1])) && (j + e@.len() == s@.len() || is_ws(
                    s@[j + e@.len()],
                ))),
        decreases s.len() - i,
    {
        let left = i == 0 || char_is_ws(s[i - 1]);
        let end = i + e.len();
        let right = end == s.len() || char_is_ws(s[end]);
        if left && right && has_at(&s, i, &e) {
            assert(s@.skip(i as int).take(e@.len() as int) =~= s@.subrange(i as int, i + e@.len()));
            return true;
        }
        proof {
            if s@.subrange(i as int, i + e@.len()) == e@ {
                assert(s@.skip(i as int).take(e@.len() as int) =~= s@.subrange(
                    i as int,
                    i + e@.len(),
                ));
            }
        }
        i = i + 1;
    }
    false
}

/// Each argument equal to the placeholder is replaced by the value; others
/// are kept, even where they contain the placeholder.
pub open spec fn replace_placeholder_spec(
    args: Seq<Seq<char>>,
    placeholder: Seq<char>,
    value: Seq<char>,
) -> Seq<Seq<char>> {
    args.map_values(|a: Seq<char>| if a == placeholder { value } else { a })
}

pub fn replace_placeholder(args: &Vec<String>, placeholder: &str, value: &str) -> (r: Vec<String>)
    ensures
        r.deep_view() == replace_placeholder_spec(args.deep_view(), placeholder@, value@),
{
    let ghost spec = replace_placeholder_spec(args.deep_view(), placeholder@, value@);
    let mut r: Vec<String> = Vec::new();
    let mut i: usize = 0;
    while i < args.len()
        invariant
            i <= args.len(),
            spec == replace_placeholder_spec(args.deep_view(), placeholder@, value@),
            r@.len() == i,
            forall|j: int| 0 <= j < i ==> (#[trigger] r@[j])@ == spec[j],
        decreases args.len() - i,
    {
        if str_eq(args[i].as_str(), placeholder) {
            r.push(owned(value));
        } else {
            r.push(args[i].clone());
        }
        assert(args.deep_view()[i as int] == args@[i as int]@);
        i = i + 1;
    }
    assert(r.deep_view() =~= spec);
    r
}

/// `{input}` and then `{output}` replaced inside each argument.
pub open spec fn expand_arg(a: Seq<char>, input: Seq<char>, output: Seq<char>) -> Seq<char> {
    replace_all(replace_all(a, "{input}"@, input), "{output}"@, output)
}

pub open spec fn expanded_args_spec(
    args: Seq<Seq<char>>,
    input: Seq<char>,
    output: Seq<char>,
) -> Seq<Seq<char>> {
    args.map_values(|a: Seq<char>| expand_arg(a, input, output))
}

pub fn expanded_args(args: &Vec<String>, input: &str, output: &str) -> (r: Vec<String>)
    ensures
        r.deep_view() == expanded_args_spec(args.deep_view(), input@, output@),
{
    proof {
        reveal_strlit("{input}");
        reveal_strlit("{output}");
    }
    let ghost spec = expanded_args_spec(args.deep_view(), input@, output@);
    let mut r: Vec<String> = Vec::new();
    let mut i: usize = 0;
    while i < args.len()
        invariant
            i <= args.len(),
            "{input}"@.len() > 0,
            "{output}"@.len() > 0,
            spec == expanded_args_spec(args.deep_view(), input@, output@),
            r@.len() == i,
            forall|j: int| 0 <= j < i ==> (#[trigger] r@[j])@ == spec[j],
        decreases args.len() - i,
    {
        let a = replace_all_str(args[i].as_str(), "{input}", input);
        let b = replace_all_str(a.as_str(), "{output}", output);
        r.push(b);
        assert(args.deep_view()[i as int] == args@[i as int]@);
        i = i + 1;
    }
    assert(r.deep_view() =~= spec);
    r
}

/// The index of the first argument equal to `flag`.
pub open spec fn first_index_of(s: Seq<Seq<char>>, flag: Seq<char>) -> Option<int> {
    if exists|i: int| 0 <= i < s.len() && #[trigger] s[i] == flag {
        Some(choose|i: int| 0 <= i < s.len() && #[trigger] s[i] == flag && forall|j: int| 0 <= j < i ==> s[j] != flag)
    } else {
        None
    }
}

/// The flag and its value, taken from the first occurrence of the flag that
/// has a value after it.
pub open spec fn flag_pair(requested: Seq<Seq<char>>, flag: Seq<char>) -> Seq<Seq<char>> {
    match first_index_of(requested, flag) {
        Some(i) => if i + 1 < requested.len() {
            seq![flag, requested[i + 1]]
        } else {
            Seq::empty()
        },
        None => Seq::empty(),
    }
}

/// The software arguments, followed by the rate flags (`-b:v`, `-maxrate`,
/// `-bufsize`, `-b:a`) that the hardware arguments set.
pub open spec fn preserve_rate_flags_spec(base: Seq<Seq<char>>, requested: Seq<Seq<char>>) -> Seq<
    Seq<char>,
> {
    base + flag_pair(requested, "-b:v"@) + flag_pair(requested, "-maxrate"@) + flag_pair(
        requested,
        "-bufsize"@,
    ) + flag_pair(requested, "-b:a"@)
}

fn flag_pair_of(requested: &Vec<String>, flag: &str) -> (r: Vec<String>)
    ensures
        r.deep_view() == flag_pair(requested.deep_view(), flag@),
{
    let ghost rv = requested.deep_view();
    let mut i: usize = 0;
    while i < requested.len()
        invariant
            i <= requested.len(),
            rv == requested.deep_view(),
            forall|j: int| 0 <= j < i ==> rv[j] != flag@,
        decreases requested.len() - i,
    {
        if str_eq(requested[i].as_str(), flag) {
            proof {
                assert(rv[i as int] == flag@);
                let k = choose|k: int| 0 <= k < rv.len() && #[trigger] rv[k] == flag@ && forall|j: int| 0 <= j < k ==> rv[j] != flag@;
                assert(forall|j: int| 0 <= j < i ==> rv[j] != flag@);
                if k < i {
                    assert(rv[k] != flag@);
                } else if k > i {
                    assert(rv[i as int] != flag@);
                }
                assert(first_index_of(rv, flag@) == Some(i as int));
            }
            let mut r: Vec<String> = Vec::new();
            if i + 1 < requested.len() {
                r.push(owned(flag));
                r.push(requested[i + 1].clone());
                assert(r.deep_view() =~= seq![flag@, rv[i + 1]]);
            } else {
                assert(r.deep_view() =~= Seq::<Seq<char>>::empty());
            }
            return r;
        }
        i = i + 1;
    }
    let r: Vec<String> = Vec::new();
    assert(r.deep_view() =~= Seq::<Seq<char>>::empty());
    r
}

pub fn preserve_rate_flags(base: &Vec<String>, requested: &Vec<String>) -> (r: Vec<String>)
    ensures
        r.deep_view() == preserve_rate_flags_spec(base.deep_view(), requested.deep_view()),
{
    let mut output = copy_strings(base);
    let mut a = flag_pair_of(requested, "-b:v");
    let mut b = flag_pair_of(requested, "-maxrate");
    let mut c = flag_pair_of(requested, "-bufsize");
    let mut d = flag_pair_of(requested, "-b:a");
    let ghost (av, bv, cv, dv) = (a.deep_view(), b.deep_view(), c.deep_view(), d.deep_view());
    let ghost ov = output.deep_view();
    output.append(&mut a);
    output.append(&mut b);
    output.append(&mut c);
    output.append(&mut d);
    assert(output.deep_view() =~= ov + av + bv + cv + dv);
    output
}

/// The quality flags that a size target replaces.
pub open spec fn is_quality_flag(a: Seq<char>) -> bool {
    a == "-crf"@ || a == "-cq"@ || a == "-qp"@ || a == "-b:v"@
}

/// The profile arguments without quality and video-rate flags (each with its
/// value), and with the audio rate set.
pub open spec fn strip_rate_args(base: Seq<Seq<char>>, audio: Seq<char>) -> Seq<Seq<char>>
    decreases base.len(),
{
    if base.len() == 0 {
        Seq::empty()
    } else if is_quality_flag(base[0]) {
        if base.len() >= 2 {
            strip_rate_args(base.skip(2), audio)
        } else {
            Seq::empty()
        }
    } else if base[0] == "-b:a"@ {
        seq![base[0], audio] + if base.len() >= 2 {
            strip_rate_args(base.skip(2), audio)
        } else {
            Seq::empty()
        }
    } else {
        seq![base[0]] + strip_rate_args(base.drop_first(), audio)
    }
}

/// The arguments of one size-targeted pass, with the rates given in kbit/s
/// as decimal text.
pub open spec fn target_args_spec(
    base: Seq<Seq<char>>,
    video: Seq<char>,
    audio: Seq<char>,
    bufsize: Seq<char>,
) -> Seq<Seq<char>> {
    strip_rate_args(base, audio + "k"@) + seq![
        "-b:v"@,
        video + "k"@,
        "-maxrate"@,
        video + "k"@,
        "-bufsize"@,
        bufsize + "k"@,
    ]
}

fn with_k(s: &str) -> (r: String)
    ensures
        r@ == s@ + "k"@,
{
    let mut r = owned(s);
    push_str(&mut r, "k");
    r
}

pub fn target_args(base: &Vec<String>, video_kbps: &str, audio_kbps: &str, bufsize_kbps: &str) -> (r:
    Vec<String>)
    ensures
        r.deep_view() == target_args_spec(base.deep_view(), video_kbps@, audio_kbps@, bufsize_kbps@),
{
    let ghost bv = base.deep_view();
    let audio = with_k(audio_kbps);
    let mut output: Vec<String> = Vec::new();
    let mut index: usize = 0;
    assert(bv.skip(0) =~= bv);
    while index < base.len()
        invariant
            index <= base.len(),
            bv == base.deep_view(),
            audio@ == audio_kbps@ + "k"@,
            output.deep_view() + strip_rate_args(bv.skip(index as int), audio@) == strip_rate_args(
                bv,
                audio@,
            ),
        decreases base.len() - index,
    {
        let ghost rest = bv.skip(index as int);
        let ghost before = output.deep_view();
        assert(rest[0] == bv[index as int]);
        let arg = &base[index];
        if str_eq(arg.as_str(), "-crf") || str_eq(arg.as_str(), "-cq") || str_eq(arg.as_str(), "-qp")
            || str_eq(arg.as_str(), "-b:v") {
            proof {
                if rest.len() >= 2 {
                    assert(rest.skip(2) =~= bv.skip(index + 2));
                } else {
                    assert(bv.skip(base.len() as int) =~= Seq::<Seq<char>>::empty());
                }
            }
            index = if base.len() - index >= 2 { index + 2 } else { base.len() };
            continue;
        }
        if str_eq(arg.as_str(), "-b:a") {
            output.push(arg.clone());
            output.push(audio.clone());
            proof {
                if rest.len() >= 2 {
                    assert(rest.skip(2) =~= bv.skip(index + 2));
                } else {
                    assert(bv.skip(base.len() as int) =~= Seq::<Seq<char>>::empty());
                }
                assert(output.deep_view() =~= before + seq![rest[0], audio@]);
            }
            index = if base.len() - index >= 2 { index + 2 } else { base.len() };
            continue;
        }
        output.push(arg.clone());
        proof {
            assert(rest.drop_first() =~= bv.skip(index + 1));
            assert(output.deep_view() =~= before + seq![rest[0]]);
        }
        index = index + 1;
    }
    assert(bv.skip(index as int) =~= Seq::<Seq<char>>::empty());
    let video = with_k(video_kbps);
    let bufsize = with_k(bufsize_kbps);
    let ghost head = output.deep_view();
    output.push(owned("-b:v"));
    output.push(video.clone());
    output.push(owned("-maxrate"));
    output.push(video);
    output.push(owned("-bufsize"));
    output.push(bufsize);
    assert(output.deep_view() =~= head + seq![
        "-b:v"@,
        video_kbps@ + "k"@,
        "-maxrate"@,
        video_kbps@ + "k"@,
        "-bufsize"@,
        bufsize_kbps@ + "k"@,
    ]);
    output
}

/// Where `requested` sets `flag` to a value, `r` holds, at or after `from`,
/// the flag followed by the value of its first setting.
#[verifier::opaque]
pub open spec fn rate_pair_kept(r: Seq<Seq<char>>, from: int, requested: Seq<Seq<char>>, flag: Seq<char>) -> bool {
    (exists|i: int| 0 <= i && i + 1 < requested.len() && #[trigger] requested[i] == flag) ==> exists|
        k: int,
        j: int,
    |
        {
            &&& 0 <= k && k + 1 < requested.len() && #[trigger] requested[k] == flag
            &&& forall|m: int| 0 <= m < k ==> requested[m] != flag
            &&& from <= j && j + 1 < r.len() && #[trigger] r[j] == flag && r[j + 1] == requested[k + 1]
        }
}

/// A flag that occurs has a first occurrence.
proof fn lemma_first_occurrence(s: Seq<Seq<char>>, flag: Seq<char>, i: int)
    requires
        0 <= i < s.len(),
        s[i] == flag,
    ensures
        exists|k: int| 0 <= k <= i && #[trigger] s[k] == flag && forall|j: int| 0 <= j < k ==> s[j] != flag,
    decreases i,
{
    if exists|j: int| 0 <= j < i && #[trigger] s[j] == flag {
        let j = choose|j: int| 0 <= j < i && #[trigger] s[j] == flag;
        lemma_first_occurrence(s, flag, j);
    } else {
        assert(forall|j: int| 0 <= j < i ==> s[j] != flag);
    }
}

/// The pair taken for a flag that is set to a value is the flag and the
/// value of its first setting.
proof fn lemma_flag_pair_value(requested: Seq<Seq<char>>, flag: Seq<char>, i: int)
    requires
        0 <= i && i + 1 < requested.len(),
        requested[i] == flag,
    ensures
        exists|k: int|
            0 <= k <= i && #[trigger] requested[k] == flag && (forall|m: int| 0 <= m < k ==> requested[m] != flag)
                && flag_pair(requested, flag) == seq![flag, requested[k + 1]],
{
    lemma_first_occurrence(requested, flag, i);
    let k = choose|k: int| 0 <= k < requested.len() && #[trigger] requested[k] == flag && forall|j: int|
        0 <= j < k ==> requested[j] != flag;
    assert(first_index_of(requested, flag) == Some(k));
    if k > i {
        assert(requested[i] != flag);
    }
    assert(flag_pair(requested, flag) == seq![flag, requested[k + 1]]);
}

/// Regroupings of five concatenated argument lists.
proof fn lemma_concat_shape(
    fb: Seq<Seq<char>>,
    a: Seq<Seq<char>>,
    b: Seq<Seq<char>>,
    c: Seq<Seq<char>>,
    d: Seq<Seq<char>>,
    chosen: Seq<Seq<char>>,
)
    requires
        chosen == fb + a + b + c + d,
        a.len() <= 2 && b.len() <= 2 && c.len() <= 2 && d.len() <= 2,
    ensures
        fb.len() <= chosen.len() <= fb.len() + 8,
        chosen.take(fb.len() as int) == fb,
        chosen == fb + a + (b + c + d),
        chosen == (fb + a) + b + (c + d),
        chosen == (fb + a + b) + c + d,
        chosen == (fb + a + b + c) + d + Seq::<Seq<char>>::empty(),
{
    assert(chosen.take(fb.len() as int) =~= fb);
    assert(chosen =~= fb + a + (b + c + d));
    assert(chosen =~= (fb + a) + b + (c + d));
    assert(chosen =~= (fb + a + b) + c + d);
    assert(chosen =~= (fb + a + b + c) + d + Seq::<Seq<char>>::empty());
}

/// A flag's pair has at most two arguments.
proof fn lemma_flag_pair_short(requested: Seq<Seq<char>>, flag: Seq<char>)
    ensures
        flag_pair(requested, flag).len() <= 2,
{
}

/// A flag's pair placed after `from` in `r` keeps that flag's rate.
proof fn lemma_pair_kept(r: Seq<Seq<char>>, x: Seq<Seq<char>>, y: Seq<Seq<char>>, from: int, requested: Seq<Seq<char>>, flag: Seq<char>)
    requires
        r == x + flag_pair(requested, flag) + y,
        from <= x.len(),
    ensures
        rate_pair_kept(r, from, requested, flag),
{
    reveal(rate_pair_kept);
    if exists|i: int| 0 <= i && i + 1 < requested.len() && #[trigger] requested[i] == flag {
        let i = choose|i: int| 0 <= i && i + 1 < requested.len() && #[trigger] requested[i] == flag;
        lemma_flag_pair_value(requested, flag, i);
        let k = choose|k: int|
            0 <= k <= i && #[trigger] requested[k] == flag && (forall|m: int| 0 <= m < k ==> requested[m] != flag)
                && flag_pair(requested, flag) == seq![flag, requested[k + 1]];
        let j = x.len() as int;
        assert(r[j] == flag);
        assert(r[j + 1] == requested[k + 1]);
    }
}

/// A profile with a size target that falls back to software keeps the
/// target: the chosen arguments are the software arguments, followed by the
/// video rate, maximum rate, buffer size and audio rate that the requested
/// arguments set. Without a size target the software arguments are used as
/// they are.
pub proof fn fallback_keeps_the_size_target_rates(
    p: ProfileView,
    args: Seq<Seq<char>>,
    backend: HardwareBackend,
)
    requires
        p.hardware == Some(backend),
        p.fallback_args.len() > 0,
    ensures
        select_hardware_spec(true, p, args, None) matches Ok((chosen, Some(b), true)) && b == backend && ({
            let n = p.fallback_args.len() as int;
            &&& chosen.len() >= n
            &&& chosen.take(n) == p.fallback_args
            &&& p.target_size_mb is Some ==> {
                &&& chosen.len() <= n + 8
                &&& rate_pair_kept(chosen, n, args, "-b:v"@)
                &&& rate_pair_kept(chosen, n, args, "-maxrate"@)
                &&& rate_pair_kept(chosen, n, args, "-bufsize"@)
                &&& rate_pair_kept(chosen, n, args, "-b:a"@)
            }
            &&& p.target_size_mb is None ==> chosen == p.fallback_args
        }),
{
    let fb = p.fallback_args;
    let n = fb.len() as int;
    if p.target_size_mb is Some {
        lemma_preserved_rates(fb, args);
        assert(select_hardware_spec(true, p, args, None) == Ok::<
            (Seq<Seq<char>>, Option<HardwareBackend>, bool),
            HardwareBackend,
        >((preserve_rate_flags_spec(fb, args), Some(backend), true)));
    } else {
        assert(fb.take(n) =~= fb);
    }
}

/// The software arguments with the rate pairs after them.
proof fn lemma_preserved_rates(fb: Seq<Seq<char>>, args: Seq<Seq<char>>)
    ensures
        ({
            let chosen = preserve_rate_flags_spec(fb, args);
            let n = fb.len() as int;
            &&& n <= chosen.len() <= n + 8
            &&& chosen.take(n) == fb
            &&& rate_pair_kept(chosen, n, args, "-b:v"@)
            &&& rate_pair_kept(chosen, n, args, "-maxrate"@)
            &&& rate_pair_kept(chosen, n, args, "-bufsize"@)
            &&& rate_pair_kept(chosen, n, args, "-b:a"@)
        }),
{
    let n = fb.len() as int;
    let a = flag_pair(args, "-b:v"@);
    let b = flag_pair(args, "-maxrate"@);
    let c = flag_pair(args, "-bufsize"@);
    let d = flag_pair(args, "-b:a"@);
    let chosen = preserve_rate_flags_spec(fb, args);
    lemma_flag_pair_short(args, "-b:v"@);
    lemma_flag_pair_short(args, "-maxrate"@);
    lemma_flag_pair_short(args, "-bufsize"@);
    lemma_flag_pair_short(args, "-b:a"@);
    assert(chosen == fb + a + b + c + d);
    lemma_concat_shape(fb, a, b, c, d, chosen);
    lemma_pair_kept(chosen, fb, b + c + d, n, args, "-b:v"@);
    lemma_pair_kept(chosen, fb + a, c + d, n, args, "-maxrate"@);
    lemma_pair_kept(chosen, fb + a + b, d, n, args, "-bufsize"@);
    lemma_pair_kept(chosen, fb + a + b + c, Seq::empty(), n, args, "-b:a"@);
}

/// A text that ends in `k` is none of the quality or rate flags.
proof fn lemma_kbps_text_is_no_flag(s: Seq<char>)
    ensures
        s + "k"@ != "-crf"@,
        s + "k"@ != "-cq"@,
        s + "k"@ != "-qp"@,
        s + "k"@ != "-b:v"@,
        !is_quality_flag(s + "k"@),
{
    reveal_strlit("k");
    reveal_strlit("-crf");
    reveal_strlit("-cq");
    reveal_strlit("-qp");
    reveal_strlit("-b:v");
    let t = s + "k"@;
    assert(t[t.len() - 1] == 'k');
    assert("-crf"@[3] == 'f');
    assert("-cq"@[2] == 'q');
    assert("-qp"@[2] == 'p');
    assert("-b:v"@[3] == 'v');
}

/// What is left of the profile arguments holds no quality flag.
proof fn lemma_strip_keeps_no_quality_flag(base: Seq<Seq<char>>, audio: Seq<char>)
    requires
        !is_quality_flag(audio),
    ensures
        forall|i: int| 0 <= i < strip_rate_args(base, audio).len() ==> !is_quality_flag(
            #[trigger] strip_rate_args(base, audio)[i],
        ),
    decreases base.len(),
{
    reveal_strlit("-b:a");
    reveal_strlit("-crf");
    reveal_strlit("-cq");
    reveal_strlit("-qp");
    reveal_strlit("-b:v");
    assert(!is_quality_flag("-b:a"@)) by {
        assert("-b:a"@[3] != "-b:v"@[3]);
        assert("-b:a"@[1] != "-crf"@[1]);
    }
    if base.len() == 0 {
    } else if is_quality_flag(base[0]) {
        if base.len() >= 2 {
            lemma_strip_keeps_no_quality_flag(base.skip(2), audio);
            assert(strip_rate_args(base, audio) == strip_rate_args(base.skip(2), audio));
        } else {
            assert(strip_rate_args(base, audio) == Seq::<Seq<char>>::empty());
        }
    } else if base[0] == "-b:a"@ {
        let rest = if base.len() >= 2 {
            strip_rate_args(base.skip(2), audio)
        } else {
            Seq::empty()
        };
        if base.len() >= 2 {
            lemma_strip_keeps_no_quality_flag(base.skip(2), audio);
        }
        let r = strip_rate_args(base, audio);
        assert(r == seq![base[0], audio] + rest);
        assert forall|i: int| 0 <= i < r.len() implies !is_quality_flag(#[trigger] r[i]) by {
            if i >= 2 {
                assert(r[i] == rest[i - 2]);
            }
        }
    } else {
        lemma_strip_keeps_no_quality_flag(base.drop_first(), audio);
        let rest = strip_rate_args(base.drop_first(), audio);
        let r = strip_rate_args(base, audio);
        assert(r == seq![base[0]] + rest);
        assert forall|i: int| 0 <= i < r.len() implies !is_quality_flag(#[trigger] r[i]) by {
            if i >= 1 {
                assert(r[i] == rest[i - 1]);
            }
        }
    }
}

/// A size-targeted pass is rate-controlled: no constant-quality flag
/// (`-crf`, `-cq`, `-qp`) of the profile survives into its arguments, and
/// the only `-b:v` in them is the target rate, which ends them together with
/// `-maxrate` at the same rate and `-bufsize`.
pub proof fn size_target_pass_has_no_quality_flag(
    base: Seq<Seq<char>>,
    video: Seq<char>,
    audio: Seq<char>,
    bufsize: Seq<char>,
)
    ensures
        ({
            let r = target_args_spec(base, video, audio, bufsize);
            &&& r.len() >= 6
            &&& forall|i: int|
                0 <= i < r.len() ==> #[trigger] r[i] != "-crf"@ && r[i] != "-cq"@ && r[i] != "-qp"@
            &&& forall|i: int| 0 <= i < r.len() && #[trigger] r[i] == "-b:v"@ ==> i == r.len() - 6
            &&& r[r.len() - 6] == "-b:v"@
            &&& r[r.len() - 5] == video + "k"@
            &&& r[r.len() - 4] == "-maxrate"@
            &&& r[r.len() - 3] == video + "k"@
            &&& r[r.len() - 2] == "-bufsize"@
            &&& r[r.len() - 1] == bufsize + "k"@
        }),
{
    reveal_strlit("-maxrate");
    reveal_strlit("-bufsize");
    reveal_strlit("-crf");
    reveal_strlit("-cq");
    reveal_strlit("-qp");
    reveal_strlit("-b:v");
    lemma_kbps_text_is_no_flag(audio);
    lemma_kbps_text_is_no_flag(video);
    lemma_kbps_text_is_no_flag(bufsize);
    let a = audio + "k"@;
    lemma_strip_keeps_no_quality_flag(base, a);
    let head = strip_rate_args(base, a);
    let tail = seq!["-b:v"@, video + "k"@, "-maxrate"@, video + "k"@, "-bufsize"@, bufsize + "k"@];
    let r = target_args_spec(base, video, audio, bufsize);
    assert(r == head + tail);
    assert("-maxrate"@.len() != "-crf"@.len() && "-maxrate"@.len() != "-cq"@.len());
    assert("-maxrate"@.len() != "-b:v"@.len() && "-bufsize"@.len() != "-b:v"@.len());
    assert("-bufsize"@.len() != "-crf"@.len() && "-bufsize"@.len() != "-cq"@.len());
    assert("-maxrate"@.len() != "-qp"@.len() && "-bufsize"@.len() != "-qp"@.len());
    assert("-b:v"@.len() != "-cq"@.len() && "-b:v"@.len() != "-qp"@.len());
    assert("-b:v"@[1] != "-crf"@[1]);
    assert forall|i: int| 0 <= i < r.len() implies #[trigger] r[i] != "-crf"@ && r[i] != "-cq"@ && r[i]
        != "-qp"@ by {
        if i < head.len() {
            assert(r[i] == head[i]);
            assert(!is_quality_flag(head[i]));
        } else {
            assert(r[i] == tail[i - head.len()]);
        }
    }
    assert forall|i: int| 0 <= i < r.len() && #[trigger] r[i] == "-b:v"@ implies i == r.len() - 6 by {
        if i < head.len() {
            assert(r[i] == head[i]);
            assert(!is_quality_flag(head[i]));
        } else {
            assert(r[i] == tail[i - head.len()]);
        }
    }
}

/// How the hardware question was settled for a pass.
#[derive(Debug)]
pub enum HardwareNote {
    /// The profile names no hardware backend.
    Software,
    /// The backend is usable, on this device.
    Selected(HardwareBackend, String),
    /// The backend is unusable; the software fallback arguments are used.
    Fallback(HardwareBackend),
}

/// The arguments chosen for a pass and how they were chosen.
#[derive(Debug)]
pub struct HardwareArgs {
    pub args: Vec<String>,
    pub note: HardwareNote,
}

/// A hardware profile that can run neither on its backend nor on a fallback.
#[derive(Debug)]
pub struct HardwareUnavailable {
    pub backend: HardwareBackend,
}

pub open spec fn hardware_unavailable_message(b: HardwareBackend) -> Seq<char> {
    "аппаратный профиль "@ + backend_label(b)
        + " недоступен: проверьте encoder и устройство; включите hardware_fallback или исправьте конфигурацию"@
}

impl HardwareUnavailable {
    pub fn message(&self) -> (r: String)
        ensures
            r@ == hardware_unavailable_message(self.backend),
    {
        let mut r = owned("аппаратный профиль ");
        push_str(&mut r, self.backend.label());
        push_str(
            &mut r,
            " недоступен: проверьте encoder и устройство; включите hardware_fallback или исправьте конфигурацию",
        );
        r
    }
}

impl HardwareNote {
    /// The log line that records the choice, if any.
    pub fn log_line(&self) -> (r: Option<String>)
        ensures
            match self {
                HardwareNote::Software => r is None,
                HardwareNote::Selected(b, d) => r is Some && r->0@ == "HARDWARE="@ + backend_label(
                    *b,
                ) + " selected DEVICE="@ + d@,
                HardwareNote::Fallback(b) => r is Some && r->0@ == "HARDWARE="@ + backend_label(*b)
                    + " unavailable; using software fallback"@,
            },
    {
        match self {
            HardwareNote::Software => None,
            HardwareNote::Selected(b, d) => {
                let mut r = owned("HARDWARE=");
                push_str(&mut r, b.label());
                push_str(&mut r, " selected DEVICE=");
                push_str(&mut r, d.as_str());
                Some(r)
            },
            HardwareNote::Fallback(b) => {
                let mut r = owned("HARDWARE=");
                push_str(&mut r, b.label());
                push_str(&mut r, " unavailable; using software fallback");
                Some(r)
            },
        }
    }
}


/// The arguments of a pass: on the hardware backend where `device` is the
/// usable device (the `{vaapi_device}` argument set to it for VAAPI); else
/// the software fallback where fallback is allowed and the profile has one
/// (keeping the rate flags of a size-targeted pass); else an error.
pub open spec fn select_hardware_spec(
    hardware_fallback: bool,
    p: ProfileView,
    args: Seq<Seq<char>>,
    device: Option<Seq<char>>,
) -> Result<(Seq<Seq<char>>, Option<HardwareBackend>, bool), HardwareBackend> {
    match p.hardware {
        None => Ok((args, None, false)),
        Some(b) => match device {
            Some(d) => Ok(
                (
                    if b == HardwareBackend::Vaapi {
                        replace_placeholder_spec(args, "{vaapi_device}"@, d)
                    } else {
                        args
                    },
                    Some(b),
                    false,
                ),
            ),
            None => if hardware_fallback && p.fallback_args.len() > 0 {
                Ok(
                    (
                        if p.target_size_mb is Some {
                            preserve_rate_flags_spec(p.fallback_args, args)
                        } else {
                            p.fallback_args
                        },
                        Some(b),
                        true,
                    ),
                )
            } else {
                Err(b)
            },
        },
    }
}

pub open spec fn note_view(n: HardwareNote) -> (Option<HardwareBackend>, bool) {
    match n {
        HardwareNote::Software => (None, false),
        HardwareNote::Selected(b, _) => (Some(b), false),
        HardwareNote::Fallback(b) => (Some(b), true),
    }
}

/// Chooses the arguments of a pass; `device` is the hardware device found
/// usable for the profile's backend, if any.
pub fn select_hardware_args(
    config: &Config,
    profile: &Profile,
    args: Vec<String>,
    device: Option<String>,
) -> (r: Result<HardwareArgs, HardwareUnavailable>)
    ensures
        match select_hardware_spec(
            config.hardware_fallback,
            profile@,
            args.deep_view(),
            match device {
                Some(d) => Some(d@),
                None => None,
            },
        ) {
            Ok((a, b, fell_back)) => r is Ok && r->Ok_0.args.deep_view() == a && note_view(
                r->Ok_0.note,
            ) == (b, fell_back) && (r->Ok_0.note matches HardwareNote::Selected(_, d) ==> device
                == Some(d)),
            Err(b) => r is Err && r->Err_0.backend == b,
        },
{
    let backend = match profile.hardware {
        None => {
            return Ok(HardwareArgs { args, note: HardwareNote::Software });
        },
        Some(b) => b,
    };
    match device {
        Some(d) => {
            let selected = if backend == HardwareBackend::Vaapi {
                replace_placeholder(&args, "{vaapi_device}", d.as_str())
            } else {
                args
            };
            Ok(HardwareArgs { args: selected, note: HardwareNote::Selected(backend, d) })
        },
        None => {
            if config.hardware_fallback && profile.fallback_args.len() > 0 {
                let chosen = match profile.target_size_mb {
                    Some(_) => preserve_rate_flags(&profile.fallback_args, &args),
                    None => copy_strings(&profile.fallback_args),
                };
                Ok(HardwareArgs { args: chosen, note: HardwareNote::Fallback(backend) })
            } else {
                Err(HardwareUnavailable { backend })
            }
        },
    }
}

/// The encoder that a hardware backend runs.
pub open spec fn backend_encoder(b: HardwareBackend) -> Seq<char> {
    match b {
        HardwareBackend::Vaapi => "h264_vaapi"@,
        HardwareBackend::Nvenc => "h264_nvenc"@,
    }
}

/// The log marker of a pass that the hardware encoder did.
pub open spec fn hardware_used_spec(b: HardwareBackend) -> Seq<char> {
    "HARDWARE_USED="@ + backend_label(b) + " ENCODER="@ + backend_encoder(b)
}

/// The marker to log after a pass: where the pass ran on the selected
/// hardware backend and succeeded, `HARDWARE_USED=<backend> ENCODER=<encoder>`;
/// otherwise none.
pub fn hardware_used_line(note: &HardwareNote, succeeded: bool) -> (r: Option<String>)
    ensures
        match note {
            HardwareNote::Selected(b, _) => if succeeded {
                r is Some && r->0@ == hardware_used_spec(*b)
            } else {
                r is None
            },
            _ => r is None,
        },
{
    match note {
        HardwareNote::Selected(b, _) => {
            if succeeded {
                let mut r = owned("HARDWARE_USED=");
                push_str(&mut r, b.label());
                push_str(&mut r, " ENCODER=");
                match b {
                    HardwareBackend::Vaapi => push_str(&mut r, "h264_vaapi"),
                    HardwareBackend::Nvenc => push_str(&mut r, "h264_nvenc"),
                }
                Some(r)
            } else {
                None
            }
        },
        _ => None,
    }
}

/// The arguments of the software retry after a failed hardware pass: the
/// profile's fallback arguments, keeping the rate flags of the requested
/// pass where the profile has a size target.
pub open spec fn fallback_retry_args_spec(p: ProfileView, requested: Seq<Seq<char>>) -> Seq<Seq<char>> {
    if p.target_size_mb is Some {
        preserve_rate_flags_spec(p.fallback_args, requested)
    } else {
        p.fallback_args
    }
}

pub fn fallback_retry_args(profile: &Profile, requested: &Vec<String>) -> (r: Vec<String>)
    ensures
        r.deep_view() == fallback_retry_args_spec(profile@, requested.deep_view()),
{
    match profile.target_size_mb {
        Some(_) => preserve_rate_flags(&profile.fallback_args, requested),
        None => copy_strings(&profile.fallback_args),
    }
}

/// After a failed pass on a hardware backend, the pass is run once more with
/// the fallback arguments, where fallback is allowed and there are some.
pub open spec fn retry_with_fallback_spec(succeeded: bool, p: ProfileView, hardware_fallback: bool) -> bool {
    !succeeded && p.hardware is Some && hardware_fallback && p.fallback_args.len() > 0
}

pub fn retry_with_fallback(succeeded: bool, profile: &Profile, config: &Config) -> (r: bool)
    ensures
        r == retry_with_fallback_spec(succeeded, profile@, config.hardware_fallback),
{
    !(succeeded || profile.hardware.is_none() || !config.hardware_fallback
        || profile.fallback_args.len() == 0)
}

/// Whether some argument is exactly `s`.
pub fn mentions(args: &Vec<String>, s: &str) -> (r: bool)
    ensures
        r == args.deep_view().contains(s@),
{
    let mut i: usize = 0;
    while i < args.len()
        invariant
            i <= args.len(),
            forall|j: int| 0 <= j < i ==> args.deep_view()[j] != s@,
        decreases args.len() - i,
    {
        if str_eq(args[i].as_str(), s) {
            assert(args.deep_view()[i as int] == s@);
            return true;
        }
        i = i + 1;
    }
    false
}

/// The ffmpeg command line (after the program): fixed options, the input,
/// the thread limits, the expanded profile arguments, and the output unless
/// the arguments place it with `{output}`.
pub open spec fn ffmpeg_args_spec(
    threads: u32,
    input: Seq<char>,
    temp: Seq<char>,
    args: Seq<Seq<char>>,
) -> Seq<Seq<char>> {
    seq![
        "-hide_banner"@,
        "-nostdin"@,
        "-y"@,
        "-loglevel"@,
        "error"@,
        "-i"@,
        input,
        "-filter_threads"@,
        "1"@,
        "-filter_complex_threads"@,
        "1"@,
        "-threads"@,
        decimal(threads as nat),
    ] + expanded_args_spec(args, input, temp) + if args.contains("{output}"@) {
        Seq::empty()
    } else {
        seq![temp]
    }
}

pub fn ffmpeg_args(threads: u32, input: &str, temp: &str, args: &Vec<String>) -> (r: Vec<String>)
    ensures
        r.deep_view() == ffmpeg_args_spec(threads, input@, temp@, args.deep_view()),
{
    let mut r: Vec<String> = Vec::new();
    r.push(owned("-hide_banner"));
    r.push(owned("-nostdin"));
    r.push(owned("-y"));
    r.push(owned("-loglevel"));
    r.push(owned("error"));
    r.push(owned("-i"));
    r.push(owned(input));
    r.push(owned("-filter_threads"));
    r.push(owned("1"));
    r.push(owned("-filter_complex_threads"));
    r.push(owned("1"));
    r.push(owned("-threads"));
    r.push(decimal_string(threads as u64));
    let ghost head = r.deep_view();
    let mut expanded = expanded_args(args, input, temp);
    let ghost ev = expanded.deep_view();
    r.append(&mut expanded);
    let has_output = mentions(args, "{output}");
    if !has_output {
        r.push(owned(temp));
    }
    assert(r.deep_view() =~= ffmpeg_args_spec(threads, input@, temp@, args.deep_view()));
    r
}

/// The ImageMagick command line (after the program): the input unless the
/// arguments place it with `{input}`, the expanded profile arguments, and the
/// output unless they place it with `{output}`.
pub open spec fn magick_args_spec(input: Seq<char>, temp: Seq<char>, args: Seq<Seq<char>>) -> Seq<
    Seq<char>,
> {
    (if args.contains("{input}"@) {
        Seq::empty()
    } else {
        seq![input]
    }) + expanded_args_spec(args, input, temp) + if args.contains("{output}"@) {
        Seq::empty()
    } else {
        seq![temp]
    }
}

pub fn magick_args(input: &str, temp: &str, args: &Vec<String>) -> (r: Vec<String>)
    ensures
        r.deep_view() == magick_args_spec(input@, temp@, args.deep_view()),
{
    let mut r: Vec<String> = Vec::new();
    if !mentions(args, "{input}") {
        r.push(owned(input));
    }
    let ghost head = r.deep_view();
    let mut expanded = expanded_args(args, input, temp);
    r.append(&mut expanded);
    if !mentions(args, "{output}") {
        r.push(owned(temp));
    }
    assert(r.deep_view() =~= magick_args_spec(input@, temp@, args.deep_view()));
    r
}

/// The conversion engines.
#[derive(Debug, Clone, Copy, PartialEq, Eq, Structural)]
pub enum EngineKind {
    Ffmpeg,
    Magick,
}

pub open spec fn engine_kind_spec(engine: Seq<char>) -> Option<EngineKind> {
    if engine == "ffmpeg"@ {
        Some(EngineKind::Ffmpeg)
    } else if engine == "magick"@ {
        Some(EngineKind::Magick)
    } else {
        None
    }
}

/// The engine a profile names, if it is a supported one.
pub fn engine_kind(engine: &str) -> (r: Option<EngineKind>)
    ensures
        r == engine_kind_spec(engine@),
{
    if str_eq(engine, "ffmpeg") {
        Some(EngineKind::Ffmpeg)
    } else if str_eq(engine, "magick") {
        Some(EngineKind::Magick)
    } else {
        None
    }
}

/// The suffix of the temporary result file: `.part.` and the output's
/// extension (`tmp` where it has none).
pub fn temp_file_suffix(output: &str) -> (r: String)
    ensures
        r@ == ".part."@ + match extension(output@) {
            Some(x) => x,
            None => "tmp"@,
        },
{
    let (_, ext) = crate::pathname::stem_and_extension(output);
    let mut r = owned(".part.");
    match ext {
        Some(x) => push_str(&mut r, x.as_str()),
        None => push_str(&mut r, "tmp"),
    }
    r
}

/// The size limit of a target, in bytes (saturating).
pub fn target_bytes(target_mb: u64) -> (r: u64)
    ensures
        r == if target_mb * 1_000_000 > u64::MAX {
            u64::MAX as int
        } else {
            target_mb * 1_000_000
        },
{
    if target_mb > u64::MAX / 1_000_000 {
        u64::MAX
    } else {
        target_mb * 1_000_000
    }
}

/// The audio rate of a size-targeted pass: the profile's, or 128 kbit/s
/// where it is 0.
pub fn effective_audio_kbps(kbps: u32) -> (r: u32)
    ensures
        r == if kbps == 0 {
            128
        } else {
            kbps
        },
{
    if kbps == 0 {
        128
    } else {
        kbps
    }
}

/// The device of a backend, given what the machine offers: for VAAPI the
/// candidate device where it is a render node and ffmpeg has `h264_vaapi`;
/// for NVENC the marker `nvidia:nvenc` where ffmpeg has `h264_nvenc`.
pub open spec fn hardware_device_spec(
    b: HardwareBackend,
    candidate: Option<Seq<char>>,
    render_node: bool,
    encoder_available: bool,
) -> Option<Seq<char>> {
    match b {
        HardwareBackend::Vaapi => match candidate {
            Some(d) => if render_node && encoder_available {
                Some(d)
            } else {
                None
            },
            None => None,
        },
        HardwareBackend::Nvenc => if encoder_available {
            Some("nvidia:nvenc"@)
        } else {
            None
        },
    }
}

pub fn hardware_device(
    backend: HardwareBackend,
    candidate: Option<String>,
    render_node: bool,
    encoder_available: bool,
) -> (r: Option<String>)
    ensures
        match r {
            Some(d) => hardware_device_spec(
                backend,
                match candidate {
                    Some(c) => Some(c@),
                    None => None,
                },
                render_node,
                encoder_available,
            ) == Some(d@),
            None => hardware_device_spec(
                backend,
                match candidate {
                    Some(c) => Some(c@),
                    None => None,
                },
                render_node,
                encoder_available,
            ) is None,
        },
{
    match backend {
        HardwareBackend::Vaapi => match candidate {
            Some(d) => if render_node && encoder_available {
                Some(d)
            } else {
                None
            },
            None => None,
        },
        HardwareBackend::Nvenc => if encoder_available {
            Some(owned("nvidia:nvenc"))
        } else {
            None
        },
    }
}

/// The VAAPI device to try: the environment override, else the configured
/// device, else the one discovered.
pub fn vaapi_device_candidate(
    env_override: Option<String>,
    configured: Option<String>,
    discovered: Option<String>,
) -> (r: Option<String>)
    ensures
        r == if env_override is Some {
            env_override
        } else if configured is Some {
            configured
        } else {
            discovered
        },
{
    match env_override {
        Some(d) => Some(d),
        None => match configured {
            Some(d) => Some(d),
            None => discovered,
        },
    }
}

/// The name of a `/dev/dri` entry (its path, and whether it is a character
/// device) that can serve VAAPI: a character device whose file name starts
/// with `renderD`.
pub open spec fn render_node_name(e: (Seq<char>, bool)) -> Option<Seq<char>> {
    if e.1 {
        match file_name(e.0) {
            Some(n) => if crate::text::starts_with(n, "renderD"@) {
                Some(n)
            } else {
                None
            },
            None => None,
        }
    } else {
        None
    }
}

pub open spec fn entry_of(e: (String, bool)) -> (Seq<char>, bool) {
    (e.0@, e.1)
}

/// Whether a path is a VAAPI render node: a character device whose file
/// name starts with `renderD` (so `/dev/null` is not one).
pub fn is_render_node(path: &str, char_device: bool) -> (r: bool)
    ensures
        r == (render_node_name((path@, char_device)) is Some),
{
    if !char_device {
        return false;
    }
    match file_name_of(path) {
        Some(n) => crate::text::str_starts_with(n.as_str(), "renderD"),
        None => false,
    }
}

/// The VAAPI device that discovery finds among the entries of `/dev/dri`:
/// of the render nodes, the one whose name comes first.
pub fn pick_render_node(entries: &Vec<(String, bool)>) -> (r: Option<String>)
    ensures
        match r {
            None => forall|i: int|
                0 <= i < entries.len() ==> #[trigger] render_node_name(entry_of(entries@[i])) is None,
            Some(p) => exists|i: int|
                0 <= i < entries.len() && entries@[i].0@ == p@ && #[trigger] render_node_name(
                    entry_of(entries@[i]),
                ) is Some && forall|j: int|
                    0 <= j < entries.len() && #[trigger] render_node_name(entry_of(entries@[j]))
                        is Some ==> !key_lt(
                        render_node_name(entry_of(entries@[j]))->0,
                        render_node_name(entry_of(entries@[i]))->0,
                    ),
        },
{
    let mut best: Option<usize> = None;
    let mut best_name: Vec<char> = Vec::new();
    let mut i: usize = 0;
    while i < entries.len()
        invariant
            i <= entries.len(),
            match best {
                Some(b) => b < i && render_node_name(entry_of(entries@[b as int])) == Some(best_name@)
                    && forall|j: int|
                    0 <= j < i && #[trigger] render_node_name(entry_of(entries@[j])) is Some
                        ==> !key_lt(render_node_name(entry_of(entries@[j]))->0, best_name@),
                None => forall|j: int|
                    0 <= j < i ==> #[trigger] render_node_name(entry_of(entries@[j])) is None,
            },
        decreases entries.len() - i,
    {
        let ghost e = entry_of(entries@[i as int]);
        if entries[i].1 {
            match file_name_of(entries[i].0.as_str()) {
                Some(n) => {
                    if crate::text::str_starts_with(n.as_str(), "renderD") {
                        let cn = crate::text::chars_of(n.as_str());
                        assert(render_node_name(e) == Some(cn@));
                        let better = match best {
                            Some(_) => key_less(&cn, &best_name),
                            None => true,
                        };
                        if better {
                            proof {
                                lemma_key_lt_irreflexive(cn@);
                                if best is Some {
                                    assert forall|j: int|
                                        0 <= j < i && #[trigger] render_node_name(entry_of(entries@[j]))
                                            is Some implies !key_lt(
                                        render_node_name(entry_of(entries@[j]))->0,
                                        cn@,
                                    ) by {
                                        let m = render_node_name(entry_of(entries@[j]))->0;
                                        if key_lt(m, cn@) {
                                            lemma_key_lt_transitive(m, cn@, best_name@);
                                        }
                                    }
                                }
                            }
                            best = Some(i);
                            best_name = cn;
                        }
                    } else {
                        assert(render_node_name(e) is None);
                    }
                },
                None => {
                    assert(render_node_name(e) is None);
                },
            }
        } else {
            assert(render_node_name(e) is None);
        }
        i = i + 1;
    }
    match best {
        Some(b) => Some(entries[b].0.clone()),
        None => None,
    }
}

/// The two lines of the hardware report.
pub fn hardware_diagnostics(vaapi_device: Option<&str>, vaapi_ok: bool, nvenc_ok: bool) -> (r: Vec<String>)
    ensures
        r.deep_view() == seq![
            match vaapi_device {
                Some(d) => if vaapi_ok {
                    "vaapi: OK ("@ + d@ + ")"@
                } else {
                    "vaapi: MISSING (device or h264_vaapi unavailable: "@ + d@ + ")"@
                },
                None => "vaapi: MISSING (render node or h264_vaapi unavailable)"@,
            },
            if nvenc_ok {
                "nvenc: OK (h264_nvenc)"@
            } else {
                "nvenc: MISSING (h264_nvenc unavailable)"@
            },
        ],
{
    let vaapi = match vaapi_device {
        Some(d) => {
            let mut s = if vaapi_ok {
                owned("vaapi: OK (")
            } else {
                owned("vaapi: MISSING (device or h264_vaapi unavailable: ")
            };
            push_str(&mut s, d);
            push_str(&mut s, ")");
            s
        },
        None => owned("vaapi: MISSING (render node or h264_vaapi unavailable)"),
    };
    let nvenc = if nvenc_ok {
        owned("nvenc: OK (h264_nvenc)")
    } else {
        owned("nvenc: MISSING (h264_nvenc unavailable)")
    };
    let mut r: Vec<String> = Vec::new();
    r.push(vaapi);
    r.push(nvenc);
    assert(r.deep_view() =~= seq![r@[0]@, r@[1]@]);
    r
}

/// The programs a job needs: ffmpeg, ffprobe and systemd-run, and
/// ImageMagick where the profile uses it or no profile is given.
pub open spec fn required_tools(engine: Option<Seq<char>>) -> Seq<Seq<char>> {
    seq!["ffmpeg"@, "ffprobe"@, "systemd-run"@] + if engine is None || engine == Some("magick"@) {
        seq!["magick"@]
    } else {
        Seq::empty()
    }
}

pub fn required_tool_names(profile: Option<&Profile>) -> (r: Vec<String>)
    ensures
        r.deep_view() == required_tools(
            match profile {
                Some(p) => Some(p.engine@),
                None => None,
            },
        ),
{
    let mut r: Vec<String> = Vec::new();
    r.push(owned("ffmpeg"));
    r.push(owned("ffprobe"));
    r.push(owned("systemd-run"));
    let needs_magick = match profile {
        Some(p) => str_eq(p.engine.as_str(), "magick"),
        None => true,
    };
    if needs_magick {
        r.push(owned("magick"));
    }
    assert(r.deep_view() =~= required_tools(
        match profile {
            Some(p) => Some(p.engine@),
            None => None,
        },
    ));
    r
}

/// Why a job cannot start.
#[derive(Debug)]
pub enum ToolError {
    /// Neither zenity nor kdialog is installed.
    NoDialog,
    /// A required program is missing.
    Missing(String),
}

pub enum ToolProblem {
    NoDialog,
    Missing(Seq<char>),
}

impl View for ToolError {
    type V = ToolProblem;

    open spec fn view(&self) -> ToolProblem {
        match self {
            ToolError::NoDialog => ToolProblem::NoDialog,
            ToolError::Missing(t) => ToolProblem::Missing(t@),
        }
    }
}

impl ToolError {
    pub fn message(&self) -> (r: String)
        ensures
            r@ == match self@ {
                ToolProblem::NoDialog => "не найден zenity или kdialog для пользовательских окон"@,
                ToolProblem::Missing(t) => "не найден обязательный инструмент `"@ + t
                    + "`. Установите пакет и повторите запуск."@,
            },
    {
        match self {
            ToolError::NoDialog => owned("не найден zenity или kdialog для пользовательских окон"),
            ToolError::Missing(t) => {
                let mut r = owned("не найден обязательный инструмент `");
                push_str(&mut r, t.as_str());
                push_str(&mut r, "`. Установите пакет и повторите запуск.");
                r
            },
        }
    }
}

/// The first index whose flag is false.
pub open spec fn first_false(found: Seq<bool>) -> Option<int> {
    if exists|i: int| 0 <= i < found.len() && !#[trigger] found[i] {
        Some(choose|i: int| 0 <= i < found.len() && !#[trigger] found[i] && forall|j: int| 0 <= j < i ==> found[j])
    } else {
        None
    }
}

/// The verdict of the tool check, given which programs were found: no
/// dialog program is an error first; then the first missing tool.
pub open spec fn check_tools_spec(
    tools: Seq<Seq<char>>,
    zenity: bool,
    kdialog: bool,
    found: Seq<bool>,
) -> Result<(), ToolProblem> {
    if !zenity && !kdialog {
        Err(ToolProblem::NoDialog)
    } else {
        match first_false(found) {
            Some(i) => Err(ToolProblem::Missing(tools[i])),
            None => Ok(()),
        }
    }
}

/// Decides the tool check; `found[i]` tells whether `tools[i]` is on `PATH`.
pub fn check_tools(tools: &Vec<String>, zenity: bool, kdialog: bool, found: &Vec<bool>) -> (r:
    Result<(), ToolError>)
    requires
        found.len() == tools.len(),
    ensures
        match r {
            Ok(()) => check_tools_spec(tools.deep_view(), zenity, kdialog, found@) is Ok,
            Err(e) => check_tools_spec(tools.deep_view(), zenity, kdialog, found@) == Err::<(), ToolProblem>(e@),
        },
        r matches Err(ToolError::Missing(t)) ==> tools.deep_view().contains(t@),
{
    if !zenity && !kdialog {
        return Err(ToolError::NoDialog);
    }
    let mut i: usize = 0;
    while i < found.len()
        invariant
            i <= found.len(),
            found.len() == tools.len(),
            zenity || kdialog,
            forall|j: int| 0 <= j < i ==> found@[j],
        decreases found.len() - i,
    {
        if !found[i] {
            proof {
                let k = choose|k: int| 0 <= k < found@.len() && !#[trigger] found@[k] && forall|j: int| 0 <= j < k ==> found@[j];
                if k < i {
                    assert(found@[k]);
                } else if k > i {
                    assert(found@[i as int]);
                }
            }
            assert(tools.deep_view()[i as int] == tools@[i as int]@);
            return Err(ToolError::Missing(tools[i].clone()));
        }
        i = i + 1;
    }
    Ok(())
}

/// The engine of a profile, if one is given.
pub open spec fn profile_engine(profile: Option<&Profile>) -> Option<Seq<char>> {
    match profile {
        Some(p) => Some(p.engine@),
        None => None,
    }
}

/// The verdict of the tool check when the lookups answered `found` for
/// `tools` and `zenity` and `kdialog` for the dialog programs.
pub open spec fn tool_check_outcome(
    tools: Seq<Seq<char>>,
    zenity: bool,
    kdialog: bool,
    found: Seq<bool>,
    r: Result<(), ToolError>,
) -> bool {
    &&& found.len() == tools.len()
    &&& match r {
        Ok(()) => check_tools_spec(tools, zenity, kdialog, found) is Ok,
        Err(e) => check_tools_spec(tools, zenity, kdialog, found) == Err::<(), ToolProblem>(e@),
    }
}

/// Checks that the programs a job needs are installed. Which programs are
/// found is up to the machine; the verdict is the one for what was found,
/// each program counted as found was found under its own name, and a
/// missing one that is reported is one that the job needs.
pub fn ensure_tools(profile: Option<&Profile>) -> (r: Result<(), ToolError>)
    ensures
        exists|zenity: bool, kdialog: bool, found: Seq<bool>|
            #[trigger] tool_check_outcome(required_tools(profile_engine(profile)), zenity, kdialog, found, r)
                && answers_backed(required_tools(profile_engine(profile)), found, zenity, kdialog),
        r matches Err(ToolError::Missing(t)) ==> required_tools(
            match profile {
                Some(p) => Some(p.engine@),
                None => None,
            },
        ).contains(t@),
{
    let tools = required_tool_names(profile);
    let zenity = is_on_path("zenity");
    let kdialog = is_on_path("kdialog");
    let mut found: Vec<bool> = Vec::new();
    let mut i: usize = 0;
    while i < tools.len()
        invariant
            i <= tools.len(),
            found.len() == i,
            forall|j: int| 0 <= j < i && #[trigger] found@[j] ==> found_somewhere(tools@[j]@),
        decreases tools.len() - i,
    {
        let here = is_on_path(tools[i].as_str());
        found.push(here);
        i = i + 1;
    }
    let r = check_tools(&tools, zenity, kdialog, &found);
    assert(tool_check_outcome(tools.deep_view(), zenity, kdialog, found@, r));
    assert forall|j: int| 0 <= j < found@.len() && #[trigger] found@[j] implies found_somewhere(
        tools.deep_view()[j],
    ) by {
        assert(tools.deep_view()[j] == tools@[j]@);
    }
    assert(answers_backed(tools.deep_view(), found@, zenity, kdialog));
    r
}
} // verus!
