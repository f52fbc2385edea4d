use vstd::prelude::*;
use vstd::string::StrSliceExecFns;
use vstd::string::StringExecFns;
use crate::environment::VarEnv;
use crate::errors::SyncError;

verus! {

// A path expression is a sequence of segments separated by single `/`
// characters, with an optional leading separator (an absolute path) and
// an optional trailing separator (accepted, ignored on evaluation). A
// segment is a run of one or more pieces: literal text, which may hold
// any character other than the separator and `$`, and variable
// references written `$name` or `${name}`, whose name starts with a
// letter and goes on with letters, digits, `_` or `-`. Only a truly
// ill-formed reference — a `$` that opens no valid reference, such as an
// unclosed `${` — refuses the text. Evaluation substitutes every
// variable reference with its value from the variable environment,
// concatenates the pieces of each segment, and joins the segments with
// single separators; it fails on the first reference whose name has no
// value.
/// Whether literal text may hold `c`: anything but the separator and the
/// variable-reference opener.
pub open spec fn is_lit_char(c: char) -> bool {
    c != '/' && c != '$'
}

/// Whether a variable name may go on with `c`: a letter, a digit, `_`
/// or `-`.
pub open spec fn is_word_char(c: char) -> bool {
    is_alpha_char(c) || (48 <= c as u32 && c as u32 <= 57) || c == '_' || c == '-'
}

/// Whether `c` is an ASCII letter.
pub open spec fn is_alpha_char(c: char) -> bool {
    (97 <= c as u32 && c as u32 <= 122) || (65 <= c as u32 && c as u32 <= 90)
}

fn lit_char(c: char) -> (b: bool)
    ensures
        b == is_lit_char(c),
{
    c != '/' && c != '$'
}

fn word_char(c: char) -> (b: bool)
    ensures
        b == is_word_char(c),
{
    let u = c as u32;
    (97 <= u && u <= 122) || (65 <= u && u <= 90) || (48 <= u && u <= 57) || c == '_' || c == '-'
}

fn alpha_char(c: char) -> (b: bool)
    ensures
        b == is_alpha_char(c),
{
    let u = c as u32;
    (97 <= u && u <= 122) || (65 <= u && u <= 90)
}

/// The index of the first character at or after `i` that cannot go on a
/// variable name, or the end of the text.
pub open spec fn word_end(s: Seq<char>, i: int) -> int
    decreases s.len() - i when 0 <= i <= s.len()
{
    if i < s.len() && is_word_char(s[i]) {
        word_end(s, i + 1)
    } else {
        i
    }
}

pub proof fn lemma_word_end_bounds(s: Seq<char>, i: int)
    requires
        0 <= i <= s.len(),
    ensures
        i <= word_end(s, i) <= s.len(),
        i < s.len() && is_word_char(s[i]) ==> word_end(s, i) > i,
    decreases s.len() - i,
{
    if i < s.len() && is_word_char(s[i]) {
        lemma_word_end_bounds(s, i + 1);
    }
}

/// The index of the first character at or after `i` that cannot stand in
/// literal text, or the end of the text.
pub open spec fn lit_end(s: Seq<char>, i: int) -> int
    decreases s.len() - i when 0 <= i <= s.len()
{
    if i < s.len() && is_lit_char(s[i]) {
        lit_end(s, i + 1)
    } else {
        i
    }
}

pub proof fn lemma_lit_end_bounds(s: Seq<char>, i: int)
    requires
        0 <= i <= s.len(),
    ensures
        i <= lit_end(s, i) <= s.len(),
        i < s.len() && is_lit_char(s[i]) ==> lit_end(s, i) > i,
    decreases s.len() - i,
{
    if i < s.len() && is_lit_char(s[i]) {
        lemma_lit_end_bounds(s, i + 1);
    }
}

fn scan_word(s: &str, n: usize, i: usize) -> (j: usize)
    requires
        n == s@.len(),
        i <= n,
    ensures
        j == word_end(s@, i as int),
        i <= j <= n,
{
    let mut j: usize = i;
    while j < n && word_char(s.get_char(j))
        invariant
            n == s@.len(),
            i <= j <= n,
            word_end(s@, i as int) == word_end(s@, j as int),
        decreases n - j,
    {
        j += 1;
    }
    proof {
        assert(word_end(s@, j as int) == j);
    }
    j
}

fn scan_lit(s: &str, n: usize, i: usize) -> (j: usize)
    requires
        n == s@.len(),
        i <= n,
    ensures
        j == lit_end(s@, i as int),
        i <= j <= n,
{
    let mut j: usize = i;
    while j < n && lit_char(s.get_char(j))
        invariant
            n == s@.len(),
            i <= j <= n,
            lit_end(s@, i as int) == lit_end(s@, j as int),
        decreases n - j,
    {
        j += 1;
    }
    proof {
        assert(lit_end(s@, j as int) == j);
    }
    j
}

/// One piece of a segment, at the specification level.
pub enum SpecPart {
    Word(Seq<char>),
    Var(Seq<char>),
}

/// One piece of a segment: literal text, or a variable reference.
#[derive(Debug)]
pub enum PathPart {
    Word(String),
    Var(String),
}

impl View for PathPart {
    type V = SpecPart;

    open spec fn view(&self) -> SpecPart {
        match self {
            PathPart::Word(w) => SpecPart::Word(w@),
            PathPart::Var(n) => SpecPart::Var(n@),
        }
    }
}

pub open spec fn part_views(parts: Seq<PathPart>) -> Seq<SpecPart> {
    parts.map_values(|p: PathPart| p@)
}

/// The piece that begins at `i`, with the index just past it; `None` at
/// a separator, at the end, and at an ill-formed variable reference (a
/// `$` that opens no `$name` or `${name}`).
pub open spec fn parse_piece(s: Seq<char>, i: int) -> Option<(SpecPart, int)> {
    if i < s.len() && s[i] == '$' {
        if i + 1 < s.len() && is_alpha_char(s[i + 1]) {
            Some((SpecPart::Var(s.subrange(i + 1, word_end(s, i + 1))), word_end(s, i + 1)))
        } else if i + 2 < s.len() && s[i + 1] == '{' && is_alpha_char(s[i + 2]) {
            if word_end(s, i + 2) < s.len() && s[word_end(s, i + 2)] == '}' {
                Some((SpecPart::Var(s.subrange(i + 2, word_end(s, i + 2))), word_end(s, i + 2) + 1))
            } else {
                None
            }
        } else {
            None
        }
    } else if i < s.len() && is_lit_char(s[i]) {
        Some((SpecPart::Word(s.subrange(i, lit_end(s, i))), lit_end(s, i)))
    } else {
        None
    }
}

/// A parsed piece always ends past where it began, within the text.
pub proof fn lemma_parse_piece_bounds(s: Seq<char>, i: int)
    requires
        0 <= i <= s.len(),
    ensures
        parse_piece(s, i) is Some ==> i < parse_piece(s, i)->Some_0.1 <= s.len(),
{
    if i < s.len() && s[i] == '$' {
        if i + 1 < s.len() && is_alpha_char(s[i + 1]) {
            lemma_word_end_bounds(s, i + 1);
        } else if i + 2 < s.len() {
            lemma_word_end_bounds(s, i + 2);
        }
    } else if i < s.len() && is_lit_char(s[i]) {
        lemma_lit_end_bounds(s, i);
    }
}

fn parse_piece_at(s: &str, n: usize, i: usize) -> (r: Option<(PathPart, usize)>)
    requires
        n == s@.len(),
        i <= n,
    ensures
        match parse_piece(s@, i as int) {
            Some(pj) => r matches Some(rp) && rp.0@ == pj.0 && rp.1 == pj.1 && i < rp.1 <= n,
            None => r is None,
        },
{
    proof {
        lemma_parse_piece_bounds(s@, i as int);
    }
    if i < n && s.get_char(i) == '$' {
        if i + 1 < n && alpha_char(s.get_char(i + 1)) {
            let j: usize = scan_word(s, n, i + 1);
            let name = s.substring_char(i + 1, j);
            Some((PathPart::Var(String::from_str(name)), j))
        } else if i + 1 < n && s.get_char(i + 1) == '{' && i + 2 < n && alpha_char(
            s.get_char(i + 2),
        ) {
            let j: usize = scan_word(s, n, i + 2);
            if j < n && s.get_char(j) == '}' {
                let name = s.substring_char(i + 2, j);
                Some((PathPart::Var(String::from_str(name)), j + 1))
            } else {
                None
            }
        } else {
            None
        }
    } else if i < n && lit_char(s.get_char(i)) {
        let j: usize = scan_lit(s, n, i);
        proof {
            lemma_lit_end_bounds(s@, i as int);
        }
        let w = s.substring_char(i, j);
        Some((PathPart::Word(String::from_str(w)), j))
    } else {
        None
    }
}

/// The greedy run of pieces from `i` on, appended to `acc`, with the
/// index where the run stops: one segment.
pub open spec fn parse_segment(s: Seq<char>, i: int, acc: Seq<SpecPart>) -> (Seq<SpecPart>, int)
    decreases s.len() - i when 0 <= i <= s.len()
{
    if parse_piece(s, i) is Some {
        let pj = parse_piece(s, i)->Some_0;
        if i < pj.1 <= s.len() {
            parse_segment(s, pj.1, acc.push(pj.0))
        } else {
            (acc, i)
        }
    } else {
        (acc, i)
    }
}

/// A parsed segment stays within the text and only advances by parsing
/// pieces.
pub proof fn lemma_parse_segment_bounds(s: Seq<char>, i: int, acc: Seq<SpecPart>)
    requires
        0 <= i <= s.len(),
    ensures
        i <= parse_segment(s, i, acc).1 <= s.len(),
        parse_segment(s, i, acc).0.len() > acc.len() ==> parse_segment(s, i, acc).1 > i,
    decreases s.len() - i,
{
    lemma_parse_piece_bounds(s, i);
    if parse_piece(s, i) is Some {
        let pj = parse_piece(s, i)->Some_0;
        if i < pj.1 <= s.len() {
            lemma_parse_segment_bounds(s, pj.1, acc.push(pj.0));
        }
    }
}

fn parse_segment_at(s: &str, n: usize, i: usize) -> (r: (Vec<PathPart>, usize))
    requires
        n == s@.len(),
        i <= n,
    ensures
        part_views(r.0@) == parse_segment(s@, i as int, Seq::empty()).0,
        r.1 == parse_segment(s@, i as int, Seq::empty()).1,
        i <= r.1 <= n,
{
    let mut parts: Vec<PathPart> = Vec::new();
    let mut j: usize = i;
    proof {
        assert(part_views(parts@) =~= Seq::<SpecPart>::empty());
    }
    loop
        invariant
            n == s@.len(),
            i <= j <= n,
            parse_segment(s@, i as int, Seq::empty()) == parse_segment(
                s@,
                j as int,
                part_views(parts@),
            ),
        ensures
            n == s@.len(),
            i <= j <= n,
            parse_segment(s@, i as int, Seq::empty()) == (part_views(parts@), j as int),
        decreases n - j,
    {
        match parse_piece_at(s, n, j) {
            Some(pj) => {
                let ghost cur = part_views(parts@);
                proof {
                    lemma_parse_piece_bounds(s@, j as int);
                    assert(parse_segment(s@, j as int, cur) == parse_segment(
                        s@,
                        pj.1 as int,
                        cur.push(pj.0@),
                    ));
                }
                let next: usize = pj.1;
                parts.push(pj.0);
                proof {
                    assert(part_views(parts@) =~= cur.push(parts@.last()@));
                }
                j = next;
            },
            None => {
                proof {
                    assert(parse_segment(s@, j as int, part_views(parts@)) == (
                        part_views(parts@),
                        j as int,
                    ));
                }
                break ;
            },
        }
    }
    (parts, j)
}

/// One `/`-separated segment of a path expression.
#[derive(Debug)]
pub struct PathSegment {
    pub parts: Vec<PathPart>,
}

impl View for PathSegment {
    type V = Seq<SpecPart>;

    open spec fn view(&self) -> Seq<SpecPart> {
        part_views(self.parts@)
    }
}

pub open spec fn seg_views(segs: Seq<PathSegment>) -> Seq<Seq<SpecPart>> {
    segs.map_values(|g: PathSegment| g@)
}

/// The greedy run of `/`-led non-empty segments from `i` on, appended to
/// `acc`, with the index where the run stops.
pub open spec fn parse_tail(s: Seq<char>, i: int, acc: Seq<Seq<SpecPart>>) -> (
    Seq<Seq<SpecPart>>,
    int,
)
    decreases s.len() - i when 0 <= i <= s.len()
{
    if i < s.len() && s[i] == '/' {
        let sj = parse_segment(s, i + 1, Seq::empty());
        if sj.0.len() > 0 && i < sj.1 <= s.len() {
            parse_tail(s, sj.1, acc.push(sj.0))
        } else {
            (acc, i)
        }
    } else {
        (acc, i)
    }
}

/// A parsed path expression at the specification level.
pub struct SpecExpr {
    pub leading: bool,
    pub segments: Seq<Seq<SpecPart>>,
    pub trailing: bool,
}

/// The parse of a whole path expression; `None` when the text does not
/// follow the grammar. A text without a first segment is taken as
/// beginning at the root, so its remaining text must be made of `/`-led
/// segments.
pub open spec fn parse_expr(s: Seq<char>) -> Option<SpecExpr> {
    let first = parse_segment(s, 0, Seq::empty());
    let segs0: Seq<Seq<SpecPart>> = if first.0.len() > 0 {
        seq![first.0]
    } else {
        Seq::empty()
    };
    let tail = parse_tail(s, first.1, segs0);
    let trailing = tail.1 < s.len() && s[tail.1] == '/';
    let end: int = if trailing {
        tail.1 + 1
    } else {
        tail.1
    };
    if end == s.len() {
        Some(SpecExpr { leading: first.0.len() == 0, segments: tail.0, trailing })
    } else {
        None
    }
}

/// A parsed path expression: the source text split into segments of
/// pieces, with the leading and trailing separators noted. The trailing
/// separator is accepted and ignored on evaluation.
#[derive(Debug)]
pub struct PathExpr {
    pub leading_slash: bool,
    pub segments: Vec<PathSegment>,
    pub trailing_slash: bool,
}

impl View for PathExpr {
    type V = SpecExpr;

    open spec fn view(&self) -> SpecExpr {
        SpecExpr {
            leading: self.leading_slash,
            segments: seg_views(self.segments@),
            trailing: self.trailing_slash,
        }
    }
}

/// Parses a path expression, exactly as [`parse_expr`] describes; every
/// text the grammar refuses is reported as a malformed expression.
pub fn parse_path_expr(s: &str) -> (r: Result<PathExpr, SyncError>)
    ensures
        match parse_expr(s@) {
            Some(e) => r matches Ok(pe) && pe@ == e,
            None => r matches Err(SyncError::MalformedExpression),
        },
{
    let n: usize = s.unicode_len();
    let mut segments: Vec<PathSegment> = Vec::new();
    let first = parse_segment_at(s, n, 0);
    let leading: bool = first.0.is_empty();
    let mut i: usize = first.1;
    if !leading {
        segments.push(PathSegment { parts: first.0 });
    }
    let ghost i0: int = i as int;
    let ghost segs0: Seq<Seq<SpecPart>> = seg_views(segments@);
    proof {
        if parse_segment(s@, 0, Seq::empty()).0.len() > 0 {
            assert(segs0 =~= seq![parse_segment(s@, 0, Seq::empty()).0]);
        } else {
            assert(segs0 =~= Seq::<Seq<SpecPart>>::empty());
        }
    }
    loop
        invariant
            n == s@.len(),
            i <= n,
            0 <= i0 <= n,
            parse_tail(s@, i0, segs0) == parse_tail(s@, i as int, seg_views(segments@)),
        ensures
            n == s@.len(),
            i <= n,
            parse_tail(s@, i0, segs0) == (seg_views(segments@), i as int),
        decreases n - i,
    {
        if i >= n {
            proof {
                assert(parse_tail(s@, i as int, seg_views(segments@)) == (
                    seg_views(segments@),
                    i as int,
                ));
            }
            break ;
        }
        if s.get_char(i) != '/' {
            proof {
                assert(parse_tail(s@, i as int, seg_views(segments@)) == (
                    seg_views(segments@),
                    i as int,
                ));
            }
            break ;
        }
        let seg = parse_segment_at(s, n, i + 1);
        if seg.0.is_empty() {
            proof {
                assert(parse_tail(s@, i as int, seg_views(segments@)) == (
                    seg_views(segments@),
                    i as int,
                ));
            }
            break ;
        }
        let ghost cur = seg_views(segments@);
        proof {
            lemma_parse_segment_bounds(s@, i as int + 1, Seq::empty());
            assert(parse_tail(s@, i as int, cur) == parse_tail(
                s@,
                seg.1 as int,
                cur.push(parse_segment(s@, i as int + 1, Seq::empty()).0),
            ));
        }
        let next: usize = seg.1;
        segments.push(PathSegment { parts: seg.0 });
        proof {
            assert(seg_views(segments@) =~= cur.push(segments@.last()@));
        }
        i = next;
    }
    let trailing: bool;
    let end: usize;
    if i < n && s.get_char(i) == '/' {
        trailing = true;
        end = i + 1;
    } else {
        trailing = false;
        end = i;
    }
    if end == n {
        let r = PathExpr { leading_slash: leading, segments, trailing_slash: trailing };
        proof {
            let e = parse_expr(s@)->Some_0;
            assert(r@.segments =~= e.segments);
        }
        Ok(r)
    } else {
        Err(SyncError::MalformedExpression)
    }
}

/// What evaluating yields: the rendered text, or the name of the first
/// variable reference that has no value.
pub enum EvalOutcome {
    Done(Seq<char>),
    Undefined(Seq<char>),
}

/// The text one piece yields: literal text stands for itself, a variable
/// reference for its value in the environment.
pub open spec fn eval_piece(p: SpecPart, env: Map<Seq<char>, Seq<char>>) -> EvalOutcome {
    match p {
        SpecPart::Word(w) => EvalOutcome::Done(w),
        SpecPart::Var(n) => if env.contains_key(n) {
            EvalOutcome::Done(env[n])
        } else {
            EvalOutcome::Undefined(n)
        },
    }
}

/// One segment's pieces concatenated, or the first undefined name, left
/// to right.
pub open spec fn eval_pieces(parts: Seq<SpecPart>, env: Map<Seq<char>, Seq<char>>) -> EvalOutcome
    decreases parts.len(),
{
    if parts.len() == 0 {
        EvalOutcome::Done(Seq::empty())
    } else {
        match eval_piece(parts[0], env) {
            EvalOutcome::Undefined(n) => EvalOutcome::Undefined(n),
            EvalOutcome::Done(v) => match eval_pieces(parts.drop_first(), env) {
                EvalOutcome::Undefined(n) => EvalOutcome::Undefined(n),
                EvalOutcome::Done(rest) => EvalOutcome::Done(v + rest),
            },
        }
    }
}

/// The segments joined with single separators, or the first undefined
/// name, left to right.
pub open spec fn eval_segments(
    segs: Seq<Seq<SpecPart>>,
    env: Map<Seq<char>, Seq<char>>,
) -> EvalOutcome
    decreases segs.len(),
{
    if segs.len() == 0 {
        EvalOutcome::Done(Seq::empty())
    } else {
        match eval_pieces(segs[0], env) {
            EvalOutcome::Undefined(n) => EvalOutcome::Undefined(n),
            EvalOutcome::Done(v) => match eval_segments(segs.drop_first(), env) {
                EvalOutcome::Undefined(n) => EvalOutcome::Undefined(n),
                EvalOutcome::Done(rest) => EvalOutcome::Done(
                    if segs.len() == 1 {
                        v
                    } else {
                        v + seq!['/'] + rest
                    },
                ),
            },
        }
    }
}

/// The text a whole expression yields: the joined segments, with a
/// leading separator when the expression is absolute. The trailing
/// separator of the source text is ignored.
pub open spec fn eval_expr(e: SpecExpr, env: Map<Seq<char>, Seq<char>>) -> EvalOutcome {
    match eval_segments(e.segments, env) {
        EvalOutcome::Done(body) => EvalOutcome::Done(
            if e.leading {
                seq!['/'] + body
            } else {
                body
            },
        ),
        EvalOutcome::Undefined(n) => EvalOutcome::Undefined(n),
    }
}

/// Whether every variable reference among one segment's pieces has a
/// value.
pub open spec fn segment_vars_defined(
    parts: Seq<SpecPart>,
    env: Map<Seq<char>, Seq<char>>,
) -> bool {
    forall|i: int|
        0 <= i < parts.len() ==> match #[trigger] parts[i] {
            SpecPart::Var(n) => env.contains_key(n),
            SpecPart::Word(_) => true,
        }
}

/// Whether every variable reference in the whole expression has a value.
pub open spec fn all_vars_defined(
    segs: Seq<Seq<SpecPart>>,
    env: Map<Seq<char>, Seq<char>>,
) -> bool {
    forall|i: int| 0 <= i < segs.len() ==> segment_vars_defined(#[trigger] segs[i], env)
}

/// One segment evaluates exactly when every reference in it has a value,
/// and an undefined-variable failure names a variable that indeed has
/// none.
pub proof fn lemma_eval_pieces_success(parts: Seq<SpecPart>, env: Map<Seq<char>, Seq<char>>)
    ensures
        (eval_pieces(parts, env) is Done) == segment_vars_defined(parts, env),
        eval_pieces(parts, env) matches EvalOutcome::Undefined(n) ==> !env.contains_key(n),
    decreases parts.len(),
{
    if parts.len() > 0 {
        lemma_eval_pieces_success(parts.drop_first(), env);
        if eval_pieces(parts, env) is Done {
            assert forall|i: int|
                0 <= i < parts.len() implies match #[trigger] parts[i] {
                SpecPart::Var(n) => env.contains_key(n),
                SpecPart::Word(_) => true,
            } by {
                if i > 0 {
                    assert(parts.drop_first()[i - 1] == parts[i]);
                }
            }
        }
        if segment_vars_defined(parts, env) {
            assert(parts[0] == parts[0]);
            assert forall|i: int|
                0 <= i < parts.drop_first().len() implies match #[trigger] parts.drop_first()[i] {
                SpecPart::Var(n) => env.contains_key(n),
                SpecPart::Word(_) => true,
            } by {
                assert(parts.drop_first()[i] == parts[i + 1]);
            }
        }
    }
}

/// Law: evaluation of the joined segments succeeds exactly when every
/// referenced variable has a value, and an undefined-variable failure
/// names a variable that indeed has none — never a silent substitution.
pub proof fn lemma_eval_segments_success(segs: Seq<Seq<SpecPart>>, env: Map<Seq<char>, Seq<char>>)
    ensures
        (eval_segments(segs, env) is Done) == all_vars_defined(segs, env),
        eval_segments(segs, env) matches EvalOutcome::Undefined(n) ==> !env.contains_key(n),
    decreases segs.len(),
{
    if segs.len() > 0 {
        lemma_eval_pieces_success(segs[0], env);
        lemma_eval_segments_success(segs.drop_first(), env);
        if eval_segments(segs, env) is Done {
            assert forall|i: int|
                0 <= i < segs.len() implies segment_vars_defined(#[trigger] segs[i], env) by {
                if i > 0 {
                    assert(segs.drop_first()[i - 1] == segs[i]);
                }
            }
        }
        if all_vars_defined(segs, env) {
            assert(segment_vars_defined(segs[0], env));
            assert forall|i: int|
                0 <= i < segs.drop_first().len() implies segment_vars_defined(
                #[trigger] segs.drop_first()[i],
                env,
            ) by {
                assert(segs.drop_first()[i] == segs[i + 1]);
            }
        }
    }
}

/// Law: a whole expression evaluates successfully exactly when every
/// variable it references has a value, and an undefined-variable failure
/// names a variable that indeed has none.
pub proof fn lemma_eval_expr_success(e: SpecExpr, env: Map<Seq<char>, Seq<char>>)
    ensures
        (eval_expr(e, env) is Done) == all_vars_defined(e.segments, env),
        eval_expr(e, env) matches EvalOutcome::Undefined(n) ==> !env.contains_key(n),
{
    lemma_eval_segments_success(e.segments, env);
}

/// Law: evaluation is deterministic for a fixed environment. Two
/// evaluations of the same expression against the same environment yield
/// the same outcome, text for text.
pub proof fn lemma_eval_deterministic(
    e: SpecExpr,
    env: Map<Seq<char>, Seq<char>>,
    r1: EvalOutcome,
    r2: EvalOutcome,
)
    requires
        r1 == eval_expr(e, env),
        r2 == eval_expr(e, env),
    ensures
        r1 == r2,
{
}

fn eval_pieces_from(parts: &Vec<PathPart>, idx: usize, env: &VarEnv) -> (r: Result<
    String,
    SyncError,
>)
    requires
        idx <= parts@.len(),
    ensures
        match eval_pieces(part_views(parts@).skip(idx as int), env@) {
            EvalOutcome::Done(v) => r matches Ok(s) && s@ == v,
            EvalOutcome::Undefined(n) => r matches Err(SyncError::UndefinedVariable(m)) && m@ == n,
        },
    decreases parts@.len() - idx,
{
    let ghost rest = part_views(parts@).skip(idx as int);
    if idx == parts.len() {
        proof {
            assert(rest =~= Seq::<SpecPart>::empty());
        }
        Ok(String::new())
    } else {
        proof {
            assert(rest[0] == parts@[idx as int]@);
            assert(rest.drop_first() =~= part_views(parts@).skip(idx as int + 1));
        }
        let head: String = match &parts[idx] {
            PathPart::Word(w) => w.clone(),
            PathPart::Var(n) => {
                match env.lookup(n.as_str()) {
                    Some(v) => v.clone(),
                    None => {
                        return Err(SyncError::UndefinedVariable(n.clone()));
                    },
                }
            },
        };
        match eval_pieces_from(parts, idx + 1, env) {
            Err(e) => Err(e),
            Ok(tail) => {
                let mut out = head;
                out.append(tail.as_str());
                Ok(out)
            },
        }
    }
}

fn eval_segments_from(segs: &Vec<PathSegment>, idx: usize, env: &VarEnv) -> (r: Result<
    String,
    SyncError,
>)
    requires
        idx <= segs@.len(),
    ensures
        match eval_segments(seg_views(segs@).skip(idx as int), env@) {
            EvalOutcome::Done(v) => r matches Ok(s) && s@ == v,
            EvalOutcome::Undefined(n) => r matches Err(SyncError::UndefinedVariable(m)) && m@ == n,
        },
    decreases segs@.len() - idx,
{
    let ghost rest = seg_views(segs@).skip(idx as int);
    if idx == segs.len() {
        proof {
            assert(rest =~= Seq::<Seq<SpecPart>>::empty());
        }
        Ok(String::new())
    } else {
        proof {
            assert(rest[0] == segs@[idx as int]@);
            assert(rest.drop_first() =~= seg_views(segs@).skip(idx as int + 1));
            assert(part_views(segs@[idx as int].parts@).skip(0) =~= part_views(
                segs@[idx as int].parts@,
            ));
        }
        let head: String = match eval_pieces_from(&segs[idx].parts, 0, env) {
            Ok(head) => head,
            Err(e) => {
                return Err(e);
            },
        };
        match eval_segments_from(segs, idx + 1, env) {
            Err(e) => Err(e),
            Ok(tail) => {
                if idx + 1 == segs.len() {
                    Ok(head)
                } else {
                    let mut out = head;
                    out.append("/");
                    out.append(tail.as_str());
                    proof {
                        reveal_strlit("/");
                        assert("/"@ =~= seq!['/']);
                    }
                    Ok(out)
                }
            },
        }
    }
}

impl PathExpr {
    /// Evaluates the expression against the environment, exactly as
    /// [`eval_expr`] describes: every variable reference is substituted
    /// with its value, and the first reference without one fails the
    /// evaluation with the undefined-variable error naming it.
    pub fn eval(&self, env: &VarEnv) -> (r: Result<String, SyncError>)
        ensures
            match eval_expr(self@, env@) {
                EvalOutcome::Done(v) => r matches Ok(s) && s@ == v,
                EvalOutcome::Undefined(n) => r matches Err(SyncError::UndefinedVariable(m)) && m@
                    == n,
            },
    {
        proof {
            assert(seg_views(self.segments@).skip(0) =~= seg_views(self.segments@));
        }
        match eval_segments_from(&self.segments, 0, env) {
            Err(e) => Err(e),
            Ok(body) => {
                if self.leading_slash {
                    let mut out = String::from_str("/");
                    out.append(body.as_str());
                    proof {
                        reveal_strlit("/");
                        assert("/"@ =~= seq!['/']);
                    }
                    Ok(out)
                } else {
                    Ok(body)
                }
            },
        }
    }
}

} // verus!
