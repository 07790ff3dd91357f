//! Laws of the command-line grammars, stated over the words grouped into
//! segments: an option with its value, or a single word.
use crate::cli::{
    capture_scan, command_line, default_capture, default_cli, default_detect, default_serve, detect_scan,
    expects_value, hunt_scan, is_help, is_out, serve_scan, starts_with_dash, Arg, CaptureView, CliView,
    CommandView, DetectView, ServeView, Usage,
};
use crate::number::{i32_from_text, u32_from_text, u64_from_text};
use vstd::prelude::*;

verus! {

/// A word of the command line, with the word after it when the word is an
/// option that takes a value.
pub struct Segment {
    pub word: Arg,
    pub value: Option<Arg>,
}

/// The words from `i` on, grouped into segments: a word for which
/// `takes_value` holds is grouped with the word after it (none when it is
/// the last word); every other word stands alone.
pub open spec fn segments(args: Seq<Arg>, i: int, takes_value: spec_fn(Seq<char>) -> bool) -> Seq<
    Segment,
>
    decreases args.len() - i,
{
    if i < 0 || i >= args.len() {
        Seq::empty()
    } else if takes_value(args[i].text@) {
        if i + 1 < args.len() {
            seq![Segment { word: args[i], value: Some(args[i + 1]) }] + segments(
                args,
                i + 2,
                takes_value,
            )
        } else {
            seq![Segment { word: args[i], value: None }]
        }
    } else {
        seq![Segment { word: args[i], value: None }] + segments(args, i + 1, takes_value)
    }
}

/// A lone word that is not empty and does not start with `-`.
pub open spec fn is_plain(s: Segment) -> bool {
    s.value is None && s.word.text@.len() > 0 && !starts_with_dash(s.word.text@)
}

/// The plain words among `segs`, in order.
pub open spec fn plain_words(segs: Seq<Segment>) -> Seq<Seq<char>>
    decreases segs.len(),
{
    if segs.len() == 0 {
        Seq::empty()
    } else {
        (if is_plain(segs[0]) {
            seq![segs[0].word.text@]
        } else {
            Seq::empty()
        }) + plain_words(segs.drop_first())
    }
}

/// The value of the last segment whose word satisfies `names`, if any.
pub open spec fn last_value(segs: Seq<Segment>, names: spec_fn(Seq<char>) -> bool) -> Option<Seq<char>>
    decreases segs.len(),
{
    if segs.len() == 0 {
        None
    } else {
        match last_value(segs.drop_first(), names) {
            Some(t) => Some(t),
            None => if names(segs[0].word.text@) && segs[0].value is Some {
                Some(segs[0].value->0.text@)
            } else {
                None
            },
        }
    }
}

pub open spec fn word_is(name: Seq<char>) -> spec_fn(Seq<char>) -> bool {
    |t: Seq<char>| t == name
}

pub open spec fn or_default(o: Option<Seq<char>>, d: Seq<char>) -> Seq<char> {
    match o {
        Some(t) => t,
        None => d,
    }
}

/// No word asks for help or is empty.
pub open spec fn no_help_or_empty(args: Seq<Arg>, i: int) -> bool {
    forall|j: int| i <= j < args.len() ==> !is_help(#[trigger] args[j].text@) && args[j].text@.len() > 0
}

proof fn lemma_cons(s: Segment, rest: Seq<Segment>)
    ensures
        (seq![s] + rest).len() > 0,
        (seq![s] + rest)[0] == s,
        (seq![s] + rest).drop_first() == rest,
{
    assert((seq![s] + rest).drop_first() =~= rest);
}

// ---------------------------------------------------------------------------
// The hunter
// ---------------------------------------------------------------------------

pub open spec fn hunt_options() -> spec_fn(Seq<char>) -> bool {
    |t: Seq<char>|
        t == "--camera"@ || t == "--motor"@ || t == "--arm"@ || t == "--frames"@ || t
            == "--classes"@ || t == "--conf"@ || t == "--iou"@
}

/// A segment the hunter accepts: an option with a value that reads as the
/// option's type, or a plain word.
pub open spec fn hunt_segment_ok(s: Segment) -> bool {
    let w = s.word.text@;
    if hunt_options()(w) {
        match s.value {
            Some(v) => if w == "--frames"@ {
                u64_from_text(v.text@) is Some
            } else if w == "--classes"@ {
                i32_from_text(v.text@) is Some
            } else if w == "--conf"@ || w == "--iou"@ {
                v.is_float
            } else {
                true
            },
            None => false,
        }
    } else {
        is_plain(s)
    }
}

pub open spec fn all_hunt_ok(segs: Seq<Segment>) -> bool
    decreases segs.len(),
{
    segs.len() == 0 || (hunt_segment_ok(segs[0]) && all_hunt_ok(segs.drop_first()))
}

/// The message for a segment that the hunter refuses whatever came
/// before it: an option without a value or with a value not of its type,
/// or an unknown option.
pub open spec fn hunt_segment_error(s: Segment) -> Option<Seq<char>> {
    let w = s.word.text@;
    if hunt_options()(w) {
        match s.value {
            None => Some(expects_value(w)),
            Some(v) => if w == "--frames"@ && u64_from_text(v.text@) is None {
                Some("--frames expects an integer"@)
            } else if w == "--classes"@ && i32_from_text(v.text@) is None {
                Some("--classes expects an integer"@)
            } else if w == "--conf"@ && !v.is_float {
                Some("--conf expects a float"@)
            } else if w == "--iou"@ && !v.is_float {
                Some("--iou expects a float"@)
            } else {
                None
            },
        }
    } else if starts_with_dash(w) {
        Some("unknown option: "@ + w)
    } else {
        None
    }
}

/// The message of the first segment that does not fit, with `model_given`
/// telling whether a plain word was already taken as the model path.
pub open spec fn hunt_first_error(segs: Seq<Segment>, model_given: bool) -> Option<Seq<char>>
    decreases segs.len(),
{
    if segs.len() == 0 {
        None
    } else {
        match hunt_segment_error(segs[0]) {
            Some(m) => Some(m),
            None => if is_plain(segs[0]) {
                if model_given {
                    Some("unexpected positional argument: "@ + segs[0].word.text@)
                } else {
                    hunt_first_error(segs.drop_first(), true)
                }
            } else {
                hunt_first_error(segs.drop_first(), model_given)
            },
        }
    }
}

/// What the hunter's command line from word `i` on gives, read from its
/// segments, starting from `cli`.
pub open spec fn hunt_law(args: Seq<Arg>, i: int, cli: CliView) -> bool {
    let segs = segments(args, i, hunt_options());
    let given: int = if cli.model.len() > 0 {
        1
    } else {
        0
    };
    let count = plain_words(segs).len() + given;
    let r = hunt_scan(args, i, cli);
    &&& hunt_first_error(segs, cli.model.len() > 0) matches Some(m) ==> r == Err::<
        CommandView,
        Seq<char>,
    >(m)
    &&& (hunt_first_error(segs, cli.model.len() > 0) is None) == (all_hunt_ok(segs) && count <= 1)
    &&& (r is Ok) == (all_hunt_ok(segs) && count == 1)
    &&& all_hunt_ok(segs) && count == 0 ==> r == Err::<CommandView, Seq<char>>(
        "missing cvimodel path"@,
    )
    &&& all_hunt_ok(segs) && count >= 2 ==> r == Err::<CommandView, Seq<char>>(
        "unexpected positional argument: "@ + plain_words(segs)[1 - given],
    )
    &&& r matches Ok(c) ==> {
        &&& c matches CommandView::Hunt(h)
        &&& h.model == if cli.model.len() > 0 {
            cli.model
        } else {
            plain_words(segs)[0]
        }
        &&& h.camera == or_default(last_value(segs, word_is("--camera"@)), cli.camera)
        &&& h.motor == or_default(last_value(segs, word_is("--motor"@)), cli.motor)
        &&& h.arm == or_default(last_value(segs, word_is("--arm"@)), cli.arm)
        &&& h.conf == or_default(last_value(segs, word_is("--conf"@)), cli.conf)
        &&& h.iou == or_default(last_value(segs, word_is("--iou"@)), cli.iou)
        &&& h.frames == match last_value(segs, word_is("--frames"@)) {
            Some(t) => u64_from_text(t),
            None => cli.frames,
        }
        &&& match last_value(segs, word_is("--classes"@)) {
            Some(t) => i32_from_text(t) == Some(h.classes),
            None => h.classes == cli.classes,
        }
    }
}

proof fn lemma_hunt_words_distinct()
    ensures
        "--camera"@ != "--motor"@,
        "--camera"@ != "--arm"@,
        "--camera"@ != "--frames"@,
        "--camera"@ != "--classes"@,
        "--camera"@ != "--conf"@,
        "--camera"@ != "--iou"@,
        "--motor"@ != "--arm"@,
        "--motor"@ != "--frames"@,
        "--motor"@ != "--classes"@,
        "--motor"@ != "--conf"@,
        "--motor"@ != "--iou"@,
        "--arm"@ != "--frames"@,
        "--arm"@ != "--classes"@,
        "--arm"@ != "--conf"@,
        "--arm"@ != "--iou"@,
        "--frames"@ != "--classes"@,
        "--frames"@ != "--conf"@,
        "--frames"@ != "--iou"@,
        "--classes"@ != "--conf"@,
        "--classes"@ != "--iou"@,
        "--conf"@ != "--iou"@,
{
    reveal_strlit("--camera");
    reveal_strlit("--motor");
    reveal_strlit("--arm");
    reveal_strlit("--frames");
    reveal_strlit("--classes");
    reveal_strlit("--conf");
    reveal_strlit("--iou");
    assert("--camera"@[2] != "--frames"@[2]);
    assert("--camera"@[3] != "--conf"@[3]);
    assert("--arm"@[2] != "--iou"@[2]);
    assert("--motor"@[2] != "--frames"@[2]);
    assert("--frames"@[2] != "--classes"@[2]);
    assert("--classes"@[2] != "--conf"@[3]);
    assert("--classes"@[3] != "--conf"@[3]);
}

proof fn lemma_hunt_law(args: Seq<Arg>, i: int, cli: CliView)
    requires
        0 <= i,
        no_help_or_empty(args, i),
    ensures
        hunt_law(args, i, cli),
    decreases args.len() - i,
{
    lemma_hunt_words_distinct();
    if i < args.len() {
        let t = args[i].text@;
        assert(!is_help(t) && t.len() > 0);
        let segs = segments(args, i, hunt_options());
        if hunt_options()(t) {
            if i + 1 < args.len() {
                let v = args[i + 1];
                let seg = Segment { word: args[i], value: Some(v) };
                let rest = segments(args, i + 2, hunt_options());
                assert(segs == seq![seg] + rest);
                lemma_cons(seg, rest);
                let next = if t == "--camera"@ {
                    CliView { camera: v.text@, ..cli }
                } else if t == "--motor"@ {
                    CliView { motor: v.text@, ..cli }
                } else if t == "--arm"@ {
                    CliView { arm: v.text@, ..cli }
                } else if t == "--frames"@ {
                    CliView { frames: u64_from_text(v.text@), ..cli }
                } else if t == "--classes"@ {
                    CliView {
                        classes: match i32_from_text(v.text@) {
                            Some(n) => n,
                            None => cli.classes,
                        },
                        ..cli
                    }
                } else if t == "--conf"@ {
                    CliView { conf: v.text@, ..cli }
                } else {
                    CliView { iou: v.text@, ..cli }
                };
                lemma_hunt_law(args, i + 2, next);
            } else {
                let seg = Segment { word: args[i], value: None };
                assert(segs == seq![seg]);
                lemma_cons(seg, Seq::empty());
                assert(seq![seg] + Seq::<Segment>::empty() == seq![seg]);
            }
        } else {
            let seg = Segment { word: args[i], value: None };
            let rest = segments(args, i + 1, hunt_options());
            assert(segs == seq![seg] + rest);
            lemma_cons(seg, rest);
            lemma_hunt_law(args, i + 1, CliView { model: t, ..cli });
        }
    }
}

/// The hunter's grammar: when no word asks for help or is empty, the
/// command line is accepted exactly when every option has a value of its
/// type and there is exactly one plain word; the model path is that word,
/// every other setting is the value of its last option, or its default;
/// with no plain word the model path is missing. Otherwise the first
/// segment that does not fit decides the error: an option without a value
/// or with a value not of its type, an unknown option, or a second plain
/// word.
pub proof fn lemma_hunt_grammar(args: Seq<Arg>)
    requires
        no_help_or_empty(args, 0),
    ensures
        hunt_law(args, 0, default_cli()),
{
    lemma_hunt_law(args, 0, default_cli());
}


// ---------------------------------------------------------------------------
// The inference test
// ---------------------------------------------------------------------------

pub open spec fn detect_options() -> spec_fn(Seq<char>) -> bool {
    |t: Seq<char>| is_out(t) || t == "--classes"@ || t == "--conf"@ || t == "--iou"@
}

pub open spec fn out_words() -> spec_fn(Seq<char>) -> bool {
    |t: Seq<char>| is_out(t)
}

/// A segment the inference test accepts: an option with a value that
/// reads as the option's type, or a plain word.
pub open spec fn detect_segment_ok(s: Segment) -> bool {
    let w = s.word.text@;
    if detect_options()(w) {
        match s.value {
            Some(v) => if w == "--classes"@ {
                i32_from_text(v.text@) is Some
            } else if w == "--conf"@ || w == "--iou"@ {
                v.is_float
            } else {
                true
            },
            None => false,
        }
    } else {
        is_plain(s)
    }
}

pub open spec fn all_detect_ok(segs: Seq<Segment>) -> bool
    decreases segs.len(),
{
    segs.len() == 0 || (detect_segment_ok(segs[0]) && all_detect_ok(segs.drop_first()))
}

/// The message for a segment that the inference test refuses whatever
/// came before it.
pub open spec fn detect_segment_error(s: Segment) -> Option<Seq<char>> {
    let w = s.word.text@;
    if detect_options()(w) {
        match s.value {
            None => Some(expects_value(if is_out(w) { "--out"@ } else { w })),
            Some(v) => if w == "--classes"@ && i32_from_text(v.text@) is None {
                Some("--classes expects an integer"@)
            } else if w == "--conf"@ && !v.is_float {
                Some("--conf expects a float"@)
            } else if w == "--iou"@ && !v.is_float {
                Some("--iou expects a float"@)
            } else {
                None
            },
        }
    } else if starts_with_dash(w) {
        Some("unknown detect option: "@ + w)
    } else {
        None
    }
}

/// The message of the first segment that does not fit, with `p` plain
/// words already taken.
pub open spec fn detect_first_error(segs: Seq<Segment>, p: int) -> Option<Seq<char>>
    decreases segs.len(),
{
    if segs.len() == 0 {
        None
    } else {
        match detect_segment_error(segs[0]) {
            Some(m) => Some(m),
            None => if is_plain(segs[0]) {
                if p >= 2 {
                    Some("unexpected detect argument: "@ + segs[0].word.text@)
                } else {
                    detect_first_error(segs.drop_first(), p + 1)
                }
            } else {
                detect_first_error(segs.drop_first(), p)
            },
        }
    }
}

/// What the inference test's command line from word `i` on gives, read
/// from its segments, starting from `cli` with `p` plain words taken.
pub open spec fn detect_law(args: Seq<Arg>, i: int, cli: DetectView, p: int) -> bool {
    let segs = segments(args, i, detect_options());
    let count = plain_words(segs).len() + p;
    let r = detect_scan(args, i, cli, p);
    &&& detect_first_error(segs, p) matches Some(m) ==> r == Err::<CommandView, Seq<char>>(m)
    &&& (detect_first_error(segs, p) is None) == (all_detect_ok(segs) && count <= 2)
    &&& (r is Ok) == (all_detect_ok(segs) && count == 2)
    &&& all_detect_ok(segs) && count == 0 ==> r == Err::<CommandView, Seq<char>>(
        "missing cvimodel path"@,
    )
    &&& all_detect_ok(segs) && count == 1 ==> r == Err::<CommandView, Seq<char>>(
        "missing input image path"@,
    )
    &&& all_detect_ok(segs) && count >= 3 ==> r == Err::<CommandView, Seq<char>>(
        "unexpected detect argument: "@ + plain_words(segs)[2 - p],
    )
    &&& r matches Ok(c) ==> {
        &&& c matches CommandView::Detect(d)
        &&& d.model == if p >= 1 {
            cli.model
        } else {
            plain_words(segs)[0]
        }
        &&& d.input == if p >= 2 {
            cli.input
        } else {
            plain_words(segs)[1 - p]
        }
        &&& d.output == or_default(last_value(segs, out_words()), cli.output)
        &&& d.conf == or_default(last_value(segs, word_is("--conf"@)), cli.conf)
        &&& d.iou == or_default(last_value(segs, word_is("--iou"@)), cli.iou)
        &&& match last_value(segs, word_is("--classes"@)) {
            Some(t) => i32_from_text(t) == Some(d.classes),
            None => d.classes == cli.classes,
        }
    }
}

proof fn lemma_detect_words_distinct()
    ensures
        !is_out("--classes"@),
        !is_out("--conf"@),
        !is_out("--iou"@),
        "--classes"@ != "--conf"@,
        "--classes"@ != "--iou"@,
        "--conf"@ != "--iou"@,
{
    reveal_strlit("-o");
    reveal_strlit("--out");
    reveal_strlit("--classes");
    reveal_strlit("--conf");
    reveal_strlit("--iou");
    assert("-o"@.len() == 2 && "--out"@.len() == 5 && "--iou"@.len() == 5);
    assert("--classes"@.len() == 9 && "--conf"@.len() == 6);
    assert("--out"@[2] != "--iou"@[2]);
    assert("--classes"@[3] != "--conf"@[3]);
}

proof fn lemma_detect_law(args: Seq<Arg>, i: int, cli: DetectView, p: int)
    requires
        0 <= i,
        0 <= p <= 2,
        no_help_or_empty(args, i),
        (p >= 1) == (cli.model.len() > 0),
        (p >= 2) == (cli.input.len() > 0),
    ensures
        detect_law(args, i, cli, p),
    decreases args.len() - i,
{
    lemma_detect_words_distinct();
    if i < args.len() {
        let t = args[i].text@;
        assert(!is_help(t) && t.len() > 0);
        let segs = segments(args, i, detect_options());
        if detect_options()(t) {
            if i + 1 < args.len() {
                let v = args[i + 1];
                let seg = Segment { word: args[i], value: Some(v) };
                let rest = segments(args, i + 2, detect_options());
                assert(segs == seq![seg] + rest);
                lemma_cons(seg, rest);
                let next = if is_out(t) {
                    DetectView { output: v.text@, ..cli }
                } else if t == "--classes"@ {
                    DetectView {
                        classes: match i32_from_text(v.text@) {
                            Some(n) => n,
                            None => cli.classes,
                        },
                        ..cli
                    }
                } else if t == "--conf"@ {
                    DetectView { conf: v.text@, ..cli }
                } else {
                    DetectView { iou: v.text@, ..cli }
                };
                lemma_detect_law(args, i + 2, next, p);
            } else {
                let seg = Segment { word: args[i], value: None };
                assert(segs == seq![seg]);
                lemma_cons(seg, Seq::empty());
                assert(seq![seg] + Seq::<Segment>::empty() == seq![seg]);
            }
        } else {
            let seg = Segment { word: args[i], value: None };
            let rest = segments(args, i + 1, detect_options());
            assert(segs == seq![seg] + rest);
            lemma_cons(seg, rest);
            if p == 0 {
                lemma_detect_law(args, i + 1, DetectView { model: t, ..cli }, 1);
            } else if p == 1 {
                lemma_detect_law(args, i + 1, DetectView { input: t, ..cli }, 2);
            }
        }
    }
}

/// The inference test's grammar: when no word asks for help or is empty,
/// the command line is accepted exactly when every option has a value of
/// its type and there are exactly two plain words, the model path and the
/// input image, in that order; every other setting is the value of its last
/// option (`-o` and `--out` alike), or its default. With fewer plain words
/// the missing path is reported. Otherwise the first segment that does not
/// fit decides the error: an option without a value or with a value not of
/// its type, an unknown option, or a third plain word.
pub proof fn lemma_detect_grammar(args: Seq<Arg>)
    requires
        no_help_or_empty(args, 0),
    ensures
        detect_law(args, 0, default_detect(), 0),
{
    lemma_detect_law(args, 0, default_detect(), 0);
}

// ---------------------------------------------------------------------------
// The capture test
// ---------------------------------------------------------------------------

pub open spec fn capture_options() -> spec_fn(Seq<char>) -> bool {
    |t: Seq<char>| t == "--camera"@ || is_out(t) || t == "--warmup"@
}

/// A lone word that does not start with `-`.
pub open spec fn is_bare(s: Segment) -> bool {
    s.value is None && !starts_with_dash(s.word.text@)
}

/// The bare words among `segs`, in order.
pub open spec fn bare_words(segs: Seq<Segment>) -> Seq<Seq<char>>
    decreases segs.len(),
{
    if segs.len() == 0 {
        Seq::empty()
    } else {
        (if is_bare(segs[0]) {
            seq![segs[0].word.text@]
        } else {
            Seq::empty()
        }) + bare_words(segs.drop_first())
    }
}

/// The last output path given, by `-o`/`--out` or as a bare word.
pub open spec fn last_output(segs: Seq<Segment>) -> Option<Seq<char>>
    decreases segs.len(),
{
    if segs.len() == 0 {
        None
    } else {
        match last_output(segs.drop_first()) {
            Some(t) => Some(t),
            None => if is_out(segs[0].word.text@) && segs[0].value is Some {
                Some(segs[0].value->0.text@)
            } else if is_bare(segs[0]) {
                Some(segs[0].word.text@)
            } else {
                None
            },
        }
    }
}

/// A segment the capture test accepts: an option with a value that reads
/// as the option's type, or a bare word.
pub open spec fn capture_segment_ok(s: Segment) -> bool {
    let w = s.word.text@;
    if capture_options()(w) {
        match s.value {
            Some(v) => if w == "--warmup"@ {
                u32_from_text(v.text@) is Some
            } else {
                true
            },
            None => false,
        }
    } else {
        is_bare(s)
    }
}

pub open spec fn all_capture_ok(segs: Seq<Segment>) -> bool
    decreases segs.len(),
{
    segs.len() == 0 || (capture_segment_ok(segs[0]) && all_capture_ok(segs.drop_first()))
}

/// No word asks for help.
pub open spec fn no_help(args: Seq<Arg>, i: int) -> bool {
    forall|j: int| i <= j < args.len() ==> !is_help(#[trigger] args[j].text@)
}

/// The message for a segment that the capture test refuses whatever came
/// before it.
pub open spec fn capture_segment_error(s: Segment) -> Option<Seq<char>> {
    let w = s.word.text@;
    if capture_options()(w) {
        match s.value {
            None => Some(expects_value(if is_out(w) { "--out"@ } else { w })),
            Some(v) => if w == "--warmup"@ && u32_from_text(v.text@) is None {
                Some("--warmup expects a non-negative integer"@)
            } else {
                None
            },
        }
    } else if starts_with_dash(w) {
        Some("unknown capture option: "@ + w)
    } else {
        None
    }
}

/// The message of the first segment that does not fit, with `p` bare
/// words already taken.
pub open spec fn capture_first_error(segs: Seq<Segment>, p: int) -> Option<Seq<char>>
    decreases segs.len(),
{
    if segs.len() == 0 {
        None
    } else {
        match capture_segment_error(segs[0]) {
            Some(m) => Some(m),
            None => if is_bare(segs[0]) {
                if p >= 1 {
                    Some("unexpected capture argument: "@ + segs[0].word.text@)
                } else {
                    capture_first_error(segs.drop_first(), p + 1)
                }
            } else {
                capture_first_error(segs.drop_first(), p)
            },
        }
    }
}

/// What the capture test's command line from word `i` on gives, read from
/// its segments, starting from `cli` with `p` bare words taken.
pub open spec fn capture_law(args: Seq<Arg>, i: int, cli: CaptureView, p: int) -> bool {
    let segs = segments(args, i, capture_options());
    let count = bare_words(segs).len() + p;
    let r = capture_scan(args, i, cli, p);
    &&& capture_first_error(segs, p) matches Some(m) ==> r == Err::<CommandView, Seq<char>>(m)
    &&& (capture_first_error(segs, p) is None) == (r is Ok)
    &&& (r is Ok) == (all_capture_ok(segs) && count <= 1)
    &&& all_capture_ok(segs) && count >= 2 ==> r == Err::<CommandView, Seq<char>>(
        "unexpected capture argument: "@ + bare_words(segs)[1 - p],
    )
    &&& r matches Ok(c) ==> {
        &&& c matches CommandView::Capture(k)
        &&& k.output == or_default(last_output(segs), cli.output)
        &&& k.camera == or_default(last_value(segs, word_is("--camera"@)), cli.camera)
        &&& match last_value(segs, word_is("--warmup"@)) {
            Some(t) => u32_from_text(t) == Some(k.warmup),
            None => k.warmup == cli.warmup,
        }
    }
}

proof fn lemma_capture_words_distinct()
    ensures
        !is_out("--camera"@),
        !is_out("--warmup"@),
        "--camera"@ != "--warmup"@,
{
    reveal_strlit("-o");
    reveal_strlit("--out");
    reveal_strlit("--camera");
    reveal_strlit("--warmup");
    assert("-o"@.len() == 2 && "--out"@.len() == 5);
    assert("--camera"@.len() == 8 && "--warmup"@.len() == 8);
    assert("--camera"@[2] != "--warmup"@[2]);
}

proof fn lemma_capture_law(args: Seq<Arg>, i: int, cli: CaptureView, p: int)
    requires
        0 <= i,
        0 <= p <= 1,
        no_help(args, i),
    ensures
        capture_law(args, i, cli, p),
    decreases args.len() - i,
{
    lemma_capture_words_distinct();
    if i < args.len() {
        let t = args[i].text@;
        assert(!is_help(t));
        let segs = segments(args, i, capture_options());
        if capture_options()(t) {
            if i + 1 < args.len() {
                let v = args[i + 1];
                let seg = Segment { word: args[i], value: Some(v) };
                let rest = segments(args, i + 2, capture_options());
                assert(segs == seq![seg] + rest);
                lemma_cons(seg, rest);
                let next = if t == "--camera"@ {
                    CaptureView { camera: v.text@, ..cli }
                } else if is_out(t) {
                    CaptureView { output: v.text@, ..cli }
                } else {
                    CaptureView {
                        warmup: match u32_from_text(v.text@) {
                            Some(n) => n,
                            None => cli.warmup,
                        },
                        ..cli
                    }
                };
                lemma_capture_law(args, i + 2, next, p);
            } else {
                let seg = Segment { word: args[i], value: None };
                assert(segs == seq![seg]);
                lemma_cons(seg, Seq::empty());
                assert(seq![seg] + Seq::<Segment>::empty() == seq![seg]);
            }
        } else {
            let seg = Segment { word: args[i], value: None };
            let rest = segments(args, i + 1, capture_options());
            assert(segs == seq![seg] + rest);
            lemma_cons(seg, rest);
            if p == 0 {
                lemma_capture_law(args, i + 1, CaptureView { output: t, ..cli }, 1);
            }
        }
    }
}

/// The capture test's grammar: when no word asks for help, the command
/// line is accepted exactly when every option has a value of its type and
/// there is at most one bare word; the output path is the last one given,
/// by `-o`/`--out` or as the bare word, the camera and warm-up count are the
/// values of their last options, each otherwise its default. Otherwise the
/// first segment that does not fit decides the error: an option without a
/// value or with a bad warm-up count, an unknown option, or a second bare
/// word.
pub proof fn lemma_capture_grammar(args: Seq<Arg>)
    requires
        no_help(args, 0),
    ensures
        capture_law(args, 0, default_capture(), 0),
{
    lemma_capture_law(args, 0, default_capture(), 0);
}

// ---------------------------------------------------------------------------
// The server
// ---------------------------------------------------------------------------

pub open spec fn serve_options() -> spec_fn(Seq<char>) -> bool {
    |t: Seq<char>| t == "--listen"@ || t == "--motor"@ || t == "--arm"@
}

/// A segment the server accepts: an option with a value (a socket address
/// for `--listen`), or `--mock`.
pub open spec fn serve_segment_ok(s: Segment) -> bool {
    let w = s.word.text@;
    if serve_options()(w) {
        match s.value {
            Some(v) => w == "--listen"@ ==> v.is_socket_addr,
            None => false,
        }
    } else {
        w == "--mock"@
    }
}

pub open spec fn all_serve_ok(segs: Seq<Segment>) -> bool
    decreases segs.len(),
{
    segs.len() == 0 || (serve_segment_ok(segs[0]) && all_serve_ok(segs.drop_first()))
}

/// Whether a lone `name` is among `segs`.
pub open spec fn has_flag(segs: Seq<Segment>, name: Seq<char>) -> bool
    decreases segs.len(),
{
    segs.len() > 0 && ((segs[0].value is None && segs[0].word.text@ == name) || has_flag(
        segs.drop_first(),
        name,
    ))
}

/// The message for a segment that the server refuses.
pub open spec fn serve_segment_error(s: Segment) -> Option<Seq<char>> {
    let w = s.word.text@;
    if serve_options()(w) {
        match s.value {
            None => Some(expects_value(w)),
            Some(v) => if w == "--listen"@ && !v.is_socket_addr {
                Some("--listen expects HOST:PORT, for example 0.0.0.0:8080"@)
            } else {
                None
            },
        }
    } else if w == "--mock"@ {
        None
    } else if starts_with_dash(w) {
        Some("unknown serve option: "@ + w)
    } else {
        Some("unexpected serve argument: "@ + w)
    }
}

/// The message of the first segment that does not fit.
pub open spec fn serve_first_error(segs: Seq<Segment>) -> Option<Seq<char>>
    decreases segs.len(),
{
    if segs.len() == 0 {
        None
    } else {
        match serve_segment_error(segs[0]) {
            Some(m) => Some(m),
            None => serve_first_error(segs.drop_first()),
        }
    }
}

/// What the server's command line from word `i` on gives, read from its
/// segments, starting from `cfg`.
pub open spec fn serve_law(args: Seq<Arg>, i: int, cfg: ServeView) -> bool {
    let segs = segments(args, i, serve_options());
    let r = serve_scan(args, i, cfg);
    &&& serve_first_error(segs) matches Some(m) ==> r == Err::<CommandView, Seq<char>>(m)
    &&& (serve_first_error(segs) is None) == (r is Ok)
    &&& (r is Ok) == all_serve_ok(segs)
    &&& r matches Ok(c) ==> {
        &&& c matches CommandView::Serve(v)
        &&& v.listen == or_default(last_value(segs, word_is("--listen"@)), cfg.listen)
        &&& v.motor_device == or_default(last_value(segs, word_is("--motor"@)), cfg.motor_device)
        &&& v.arm_device == or_default(last_value(segs, word_is("--arm"@)), cfg.arm_device)
        &&& v.mock == (cfg.mock || has_flag(segs, "--mock"@))
    }
}

proof fn lemma_serve_words_distinct()
    ensures
        "--listen"@ != "--motor"@,
        "--listen"@ != "--arm"@,
        "--motor"@ != "--arm"@,
        "--mock"@ != "--listen"@,
        "--mock"@ != "--motor"@,
        "--mock"@ != "--arm"@,
{
    reveal_strlit("--listen");
    reveal_strlit("--motor");
    reveal_strlit("--arm");
    reveal_strlit("--mock");
    assert("--listen"@.len() == 8 && "--motor"@.len() == 7);
    assert("--arm"@.len() == 5 && "--mock"@.len() == 6);
}

proof fn lemma_serve_law(args: Seq<Arg>, i: int, cfg: ServeView)
    requires
        0 <= i,
        no_help(args, i),
    ensures
        serve_law(args, i, cfg),
    decreases args.len() - i,
{
    lemma_serve_words_distinct();
    if i < args.len() {
        let t = args[i].text@;
        assert(!is_help(t));
        let segs = segments(args, i, serve_options());
        if serve_options()(t) {
            if i + 1 < args.len() {
                let v = args[i + 1];
                let seg = Segment { word: args[i], value: Some(v) };
                let rest = segments(args, i + 2, serve_options());
                assert(segs == seq![seg] + rest);
                lemma_cons(seg, rest);
                let next = if t == "--listen"@ {
                    ServeView { listen: v.text@, ..cfg }
                } else if t == "--motor"@ {
                    ServeView { motor_device: v.text@, ..cfg }
                } else {
                    ServeView { arm_device: v.text@, ..cfg }
                };
                lemma_serve_law(args, i + 2, next);
            } else {
                let seg = Segment { word: args[i], value: None };
                assert(segs == seq![seg]);
                lemma_cons(seg, Seq::empty());
                assert(seq![seg] + Seq::<Segment>::empty() == seq![seg]);
            }
        } else {
            let seg = Segment { word: args[i], value: None };
            let rest = segments(args, i + 1, serve_options());
            assert(segs == seq![seg] + rest);
            lemma_cons(seg, rest);
            lemma_serve_law(args, i + 1, ServeView { mock: true, ..cfg });
        }
    }
}

/// The server's grammar: when no word asks for help, the command line is
/// accepted exactly when every word is `--mock` or an option with a value
/// (a socket address for `--listen`); each setting is the value of its last
/// option, or its default, and mocking is on exactly when `--mock` is given.
/// Otherwise the first segment that does not fit decides the error: an
/// option without a value, a `--listen` value that is no socket address, an
/// unknown option, or a plain word.
pub proof fn lemma_serve_grammar(args: Seq<Arg>)
    requires
        no_help(args, 0),
    ensures
        serve_law(args, 0, default_serve()),
{
    lemma_serve_law(args, 0, default_serve());
}


// ---------------------------------------------------------------------------
// Asking for help
// ---------------------------------------------------------------------------

/// The word asks for help.
pub open spec fn asks_help(t: Seq<char>) -> bool {
    t == "-h"@ || t == "--help"@
}

proof fn lemma_help_words()
    ensures
        forall|t: Seq<char>| asks_help(t) ==> starts_with_dash(t) && t.len() > 0,
        forall|t: Seq<char>|
            asks_help(t) ==> t != "--camera"@ && t != "--motor"@ && t != "--arm"@ && t
                != "--frames"@ && t != "--classes"@ && t != "--conf"@ && t != "--iou"@ && t
                != "--listen"@ && t != "--mock"@ && t != "--warmup"@ && !is_out(t),
{
    reveal_strlit("-h");
    reveal_strlit("--help");
    reveal_strlit("-o");
    reveal_strlit("--out");
    reveal_strlit("--camera");
    reveal_strlit("--motor");
    reveal_strlit("--arm");
    reveal_strlit("--frames");
    reveal_strlit("--classes");
    reveal_strlit("--conf");
    reveal_strlit("--iou");
    reveal_strlit("--listen");
    reveal_strlit("--mock");
    reveal_strlit("--warmup");
    assert("-h"@.len() == 2 && "--help"@.len() == 6 && "-o"@.len() == 2 && "--out"@.len() == 5);
    assert("--camera"@.len() == 8 && "--motor"@.len() == 7 && "--arm"@.len() == 5);
    assert("--frames"@.len() == 8 && "--classes"@.len() == 9 && "--conf"@.len() == 6);
    assert("--iou"@.len() == 5 && "--listen"@.len() == 8 && "--mock"@.len() == 6);
    assert("--warmup"@.len() == 8);
    assert("-h"@[1] != "-o"@[1]);
    assert("--help"@[2] != "--conf"@[2]);
    assert("--help"@[2] != "--mock"@[2]);
    assert("-h"@[0] == '-' && "--help"@[0] == '-');
}

proof fn lemma_take_cons(s: Segment, rest: Seq<Segment>, k: int)
    requires
        0 < k <= rest.len(),
    ensures
        (seq![s] + rest).take(k).len() > 0,
        (seq![s] + rest).take(k)[0] == s,
        (seq![s] + rest).take(k).drop_first() == rest.take(k - 1),
        (seq![s] + rest)[k] == rest[k - 1],
{
    assert((seq![s] + rest).take(k).drop_first() =~= rest.take(k - 1));
}

/// The server stops at the first word that asks for help, provided every
/// segment before it fits: it shows the server's usage.
pub proof fn lemma_serve_help(args: Seq<Arg>, i: int, cfg: ServeView, k: int)
    requires
        0 <= i,
        0 <= k < segments(args, i, serve_options()).len(),
        asks_help(segments(args, i, serve_options())[k].word.text@),
        serve_first_error(segments(args, i, serve_options()).take(k)) is None,
    ensures
        serve_scan(args, i, cfg) == Ok::<CommandView, Seq<char>>(CommandView::Help(Usage::Serve)),
    decreases k,
{
    lemma_help_words();
    lemma_serve_words_distinct();
    let segs = segments(args, i, serve_options());
    let t = args[i].text@;
    if serve_options()(t) {
        if i + 1 < args.len() {
            let v = args[i + 1];
            let seg = Segment { word: args[i], value: Some(v) };
            let rest = segments(args, i + 2, serve_options());
            assert(segs == seq![seg] + rest);
            if k == 0 {
                assert(asks_help(t));
            } else {
                lemma_take_cons(seg, rest, k);
                let next = if t == "--listen"@ {
                    ServeView { listen: v.text@, ..cfg }
                } else if t == "--motor"@ {
                    ServeView { motor_device: v.text@, ..cfg }
                } else {
                    ServeView { arm_device: v.text@, ..cfg }
                };
                lemma_serve_help(args, i + 2, next, k - 1);
            }
        } else {
            assert(segs == seq![Segment { word: args[i], value: None }]);
            assert(asks_help(t));
        }
    } else {
        let seg = Segment { word: args[i], value: None };
        let rest = segments(args, i + 1, serve_options());
        assert(segs == seq![seg] + rest);
        if k == 0 {
            assert(asks_help(t));
        } else {
            lemma_take_cons(seg, rest, k);
            lemma_serve_help(args, i + 1, ServeView { mock: true, ..cfg }, k - 1);
        }
    }
}

/// The inference test stops at the first word that asks for help,
/// provided every segment before it fits and no word before it is empty:
/// it shows the inference test's usage.
pub proof fn lemma_detect_help(args: Seq<Arg>, i: int, cli: DetectView, p: int, k: int)
    requires
        0 <= i,
        0 <= p <= 2,
        0 <= k < segments(args, i, detect_options()).len(),
        asks_help(segments(args, i, detect_options())[k].word.text@),
        detect_first_error(segments(args, i, detect_options()).take(k), p) is None,
        forall|j: int| 0 <= j < k ==> #[trigger] segments(args, i, detect_options())[j].word.text@.len() > 0,
    ensures
        detect_scan(args, i, cli, p) == Ok::<CommandView, Seq<char>>(CommandView::Help(Usage::Detect)),
    decreases k,
{
    lemma_help_words();
    lemma_detect_words_distinct();
    let segs = segments(args, i, detect_options());
    let t = args[i].text@;
    if detect_options()(t) {
        if i + 1 < args.len() {
            let v = args[i + 1];
            let seg = Segment { word: args[i], value: Some(v) };
            let rest = segments(args, i + 2, detect_options());
            assert(segs == seq![seg] + rest);
            if k == 0 {
                assert(asks_help(t));
            } else {
                lemma_take_cons(seg, rest, k);
                let next = if is_out(t) {
                    DetectView { output: v.text@, ..cli }
                } else if t == "--classes"@ {
                    DetectView {
                        classes: match i32_from_text(v.text@) {
                            Some(n) => n,
                            None => cli.classes,
                        },
                        ..cli
                    }
                } else if t == "--conf"@ {
                    DetectView { conf: v.text@, ..cli }
                } else {
                    DetectView { iou: v.text@, ..cli }
                };
                assert forall|j: int| 0 <= j < k - 1 implies #[trigger] rest[j].word.text@.len() > 0 by {
                    assert(segs[j + 1] == rest[j]);
                }
                lemma_detect_help(args, i + 2, next, p, k - 1);
            }
        } else {
            assert(segs == seq![Segment { word: args[i], value: None }]);
            assert(asks_help(t));
        }
    } else {
        let seg = Segment { word: args[i], value: None };
        let rest = segments(args, i + 1, detect_options());
        assert(segs == seq![seg] + rest);
        if k == 0 {
            assert(asks_help(t));
        } else {
            lemma_take_cons(seg, rest, k);
            assert(segs[0] == seg);
            assert(t.len() > 0);
            assert forall|j: int| 0 <= j < k - 1 implies #[trigger] rest[j].word.text@.len() > 0 by {
                assert(segs[j + 1] == rest[j]);
            }
            if detect_segment_error(seg) is None && is_plain(seg) {
                if p == 0 {
                    lemma_detect_help(args, i + 1, DetectView { model: t, ..cli }, 1, k - 1);
                } else if p == 1 {
                    lemma_detect_help(args, i + 1, DetectView { input: t, ..cli }, 2, k - 1);
                }
            } else {
                assert(detect_first_error(segs.take(k), p) is Some);
            }
        }
    }
}

/// The capture test stops at the first word that asks for help, provided
/// every segment before it fits: it shows the capture test's usage.
pub proof fn lemma_capture_help(args: Seq<Arg>, i: int, cli: CaptureView, p: int, k: int)
    requires
        0 <= i,
        0 <= p <= 1,
        0 <= k < segments(args, i, capture_options()).len(),
        asks_help(segments(args, i, capture_options())[k].word.text@),
        capture_first_error(segments(args, i, capture_options()).take(k), p) is None,
    ensures
        capture_scan(args, i, cli, p) == Ok::<CommandView, Seq<char>>(
            CommandView::Help(Usage::Capture),
        ),
    decreases k,
{
    lemma_help_words();
    lemma_capture_words_distinct();
    let segs = segments(args, i, capture_options());
    let t = args[i].text@;
    if capture_options()(t) {
        if i + 1 < args.len() {
            let v = args[i + 1];
            let seg = Segment { word: args[i], value: Some(v) };
            let rest = segments(args, i + 2, capture_options());
            assert(segs == seq![seg] + rest);
            if k == 0 {
                assert(asks_help(t));
            } else {
                lemma_take_cons(seg, rest, k);
                let next = if t == "--camera"@ {
                    CaptureView { camera: v.text@, ..cli }
                } else if is_out(t) {
                    CaptureView { output: v.text@, ..cli }
                } else {
                    CaptureView {
                        warmup: match u32_from_text(v.text@) {
                            Some(n) => n,
                            None => cli.warmup,
                        },
                        ..cli
                    }
                };
                lemma_capture_help(args, i + 2, next, p, k - 1);
            }
        } else {
            assert(segs == seq![Segment { word: args[i], value: None }]);
            assert(asks_help(t));
        }
    } else {
        let seg = Segment { word: args[i], value: None };
        let rest = segments(args, i + 1, capture_options());
        assert(segs == seq![seg] + rest);
        if k == 0 {
            assert(asks_help(t));
        } else {
            lemma_take_cons(seg, rest, k);
            if capture_segment_error(seg) is None && is_bare(seg) && p == 0 {
                lemma_capture_help(args, i + 1, CaptureView { output: t, ..cli }, 1, k - 1);
            } else {
                assert(capture_first_error(segs.take(k), p) is Some);
            }
        }
    }
}

/// The hunter stops at the first word that asks for help, provided every
/// segment before it fits and no word before it is empty: it shows the
/// main usage.
pub proof fn lemma_hunt_help(args: Seq<Arg>, i: int, cli: CliView, k: int)
    requires
        0 <= i,
        0 <= k < segments(args, i, hunt_options()).len(),
        asks_help(segments(args, i, hunt_options())[k].word.text@),
        hunt_first_error(segments(args, i, hunt_options()).take(k), cli.model.len() > 0) is None,
        forall|j: int| 0 <= j < k ==> #[trigger] segments(args, i, hunt_options())[j].word.text@.len() > 0,
    ensures
        hunt_scan(args, i, cli) == Ok::<CommandView, Seq<char>>(CommandView::Help(Usage::Main)),
    decreases k,
{
    lemma_help_words();
    lemma_hunt_words_distinct();
    let segs = segments(args, i, hunt_options());
    let t = args[i].text@;
    if hunt_options()(t) {
        if i + 1 < args.len() {
            let v = args[i + 1];
            let seg = Segment { word: args[i], value: Some(v) };
            let rest = segments(args, i + 2, hunt_options());
            assert(segs == seq![seg] + rest);
            if k == 0 {
                assert(asks_help(t));
            } else {
                lemma_take_cons(seg, rest, k);
                let next = if t == "--camera"@ {
                    CliView { camera: v.text@, ..cli }
                } else if t == "--motor"@ {
                    CliView { motor: v.text@, ..cli }
                } else if t == "--arm"@ {
                    CliView { arm: v.text@, ..cli }
                } else if t == "--frames"@ {
                    CliView { frames: u64_from_text(v.text@), ..cli }
                } else if t == "--classes"@ {
                    CliView {
                        classes: match i32_from_text(v.text@) {
                            Some(n) => n,
                            None => cli.classes,
                        },
                        ..cli
                    }
                } else if t == "--conf"@ {
                    CliView { conf: v.text@, ..cli }
                } else {
                    CliView { iou: v.text@, ..cli }
                };
                assert forall|j: int| 0 <= j < k - 1 implies #[trigger] rest[j].word.text@.len() > 0 by {
                    assert(segs[j + 1] == rest[j]);
                }
                lemma_hunt_help(args, i + 2, next, k - 1);
            }
        } else {
            assert(segs == seq![Segment { word: args[i], value: None }]);
            assert(asks_help(t));
        }
    } else {
        let seg = Segment { word: args[i], value: None };
        let rest = segments(args, i + 1, hunt_options());
        assert(segs == seq![seg] + rest);
        if k == 0 {
            assert(asks_help(t));
        } else {
            lemma_take_cons(seg, rest, k);
            assert(segs[0] == seg);
            assert(t.len() > 0);
            assert forall|j: int| 0 <= j < k - 1 implies #[trigger] rest[j].word.text@.len() > 0 by {
                assert(segs[j + 1] == rest[j]);
            }
            lemma_hunt_help(args, i + 1, CliView { model: t, ..cli }, k - 1);
        }
    }
}

proof fn lemma_command_words()
    ensures
        "serve"@ != "detect"@,
        "serve"@ != "capture"@,
        "detect"@ != "capture"@,
{
    reveal_strlit("serve");
    reveal_strlit("detect");
    reveal_strlit("capture");
    assert("serve"@.len() == 5 && "detect"@.len() == 6 && "capture"@.len() == 7);
}

/// `serve`, `detect` or `capture` followed directly by `-h` or `--help`
/// shows that command's usage, whatever follows.
pub proof fn lemma_command_help(args: Seq<Arg>)
    requires
        args.len() >= 2,
        asks_help(args[1].text@),
    ensures
        args[0].text@ == "serve"@ ==> command_line(args) == Ok::<CommandView, Seq<char>>(
            CommandView::Help(Usage::Serve),
        ),
        args[0].text@ == "detect"@ ==> command_line(args) == Ok::<CommandView, Seq<char>>(
            CommandView::Help(Usage::Detect),
        ),
        args[0].text@ == "capture"@ ==> command_line(args) == Ok::<CommandView, Seq<char>>(
            CommandView::Help(Usage::Capture),
        ),
{
    lemma_command_words();
    lemma_help_words();
    let segs_s = segments(args, 1, serve_options());
    assert(segs_s[0].word == args[1]);
    assert(segs_s.take(0) =~= Seq::<Segment>::empty());
    lemma_serve_help(args, 1, default_serve(), 0);
    let segs_d = segments(args, 1, detect_options());
    assert(segs_d[0].word == args[1]);
    assert(segs_d.take(0) =~= Seq::<Segment>::empty());
    lemma_detect_help(args, 1, default_detect(), 0, 0);
    let segs_c = segments(args, 1, capture_options());
    assert(segs_c[0].word == args[1]);
    assert(segs_c.take(0) =~= Seq::<Segment>::empty());
    lemma_capture_help(args, 1, default_capture(), 0, 0);
}

} // verus!
