//! The parameter, entry and root collectors: walk a binding set, build one
//! documented entry per binding that carries a comment, follow curried
//! function parameters, and resolve re-exported names against a scope.

use vstd::prelude::*;
use vstd::string::*;
use crate::comment::{retrieve_doc_comment, spec_find_comment, Tok};
use crate::parse::{parse_doc_comment, spec_parse_doc_comment, DocComment, DocCommentV};
use crate::tree::{
    find_attrset, find_attrset_in_children, find_attrset_in_list, find_target,
    find_target_in_list, lemma_find_attrset_wf, lemma_find_target_wf, wf_child, wf_expr, wf_param,
    LambdaParam, NixExpr, PatEntry, SetChild,
};

verus! {

/// One formal parameter: its name and its own attached comment, if any.
pub struct SingleArg {
    pub name: String,
    pub doc: Option<String>,
}

/// One parameter position of a curried function: a plain parameter or a
/// destructuring pattern.
pub enum Argument {
    /// A plain parameter.
    Flat(SingleArg),
    /// A destructuring pattern, sub-parameters in source order; duplicate
    /// names are kept as they stand.
    Pattern(Vec<SingleArg>),
}

/// One extracted documentation record, before rendering categories are
/// attached.
pub struct DocItem {
    pub name: String,
    pub comment: DocComment,
    pub args: Vec<Argument>,
}

/// One fully built entry, as the renderer consumes it.
pub struct ManualEntry {
    /// Name of the rendering category.
    pub category: String,
    /// Name of the bound function or value.
    pub name: String,
    /// Description paragraphs, split at blank lines.
    pub description: Vec<String>,
    /// Type signature section, when present.
    pub fn_type: Option<String>,
    /// Example section, when present.
    pub example: Option<String>,
    /// One argument per curry level.
    pub args: Vec<Argument>,
}

/// Specification-level value of an optional string.
pub open spec fn opt_view(o: Option<String>) -> Option<Seq<char>> {
    match o {
        Some(s) => Some(s@),
        None => None,
    }
}

pub struct SingleArgV {
    pub name: Seq<char>,
    pub doc: Option<Seq<char>>,
}

pub enum ArgumentV {
    Flat(SingleArgV),
    Pattern(Seq<SingleArgV>),
}

pub struct DocItemV {
    pub name: Seq<char>,
    pub comment: DocCommentV,
    pub args: Seq<ArgumentV>,
}

pub struct ManualEntryV {
    pub category: Seq<char>,
    pub name: Seq<char>,
    pub description: Seq<Seq<char>>,
    pub fn_type: Option<Seq<char>>,
    pub example: Option<Seq<char>>,
    pub args: Seq<ArgumentV>,
}

impl View for SingleArg {
    type V = SingleArgV;

    open spec fn view(&self) -> SingleArgV {
        SingleArgV { name: self.name@, doc: opt_view(self.doc) }
    }
}

impl View for Argument {
    type V = ArgumentV;

    open spec fn view(&self) -> ArgumentV {
        match self {
            Argument::Flat(a) => ArgumentV::Flat(a@),
            Argument::Pattern(v) => ArgumentV::Pattern(v@.map_values(|x: SingleArg| x@)),
        }
    }
}

/// Specification-level value of an argument vector.
pub open spec fn args_view(s: Seq<Argument>) -> Seq<ArgumentV> {
    s.map_values(|a: Argument| a@)
}

impl View for DocItem {
    type V = DocItemV;

    open spec fn view(&self) -> DocItemV {
        DocItemV { name: self.name@, comment: self.comment@, args: args_view(self.args@) }
    }
}

impl View for ManualEntry {
    type V = ManualEntryV;

    open spec fn view(&self) -> ManualEntryV {
        ManualEntryV {
            category: self.category@,
            name: self.name@,
            description: self.description@.map_values(|s: String| s@),
            fn_type: opt_view(self.fn_type),
            example: opt_view(self.example),
            args: args_view(self.args@),
        }
    }
}

/// Specification-level value of an entry vector.
pub open spec fn entries_view(s: Seq<ManualEntry>) -> Seq<ManualEntryV> {
    s.map_values(|e: ManualEntry| e@)
}

/// A scope: re-export resolution data, a name paired with its built entry,
/// later pairs overriding earlier ones.
pub open spec fn scope_view(s: Seq<(String, ManualEntry)>) -> Seq<(Seq<char>, ManualEntryV)> {
    s.map_values(|p: (String, ManualEntry)| (p.0@, p.1@))
}

/// Index of the first blank-line separator (two adjacent newlines), or
/// `s.len()` if none.
pub open spec fn sep_idx(s: Seq<char>) -> int
    decreases s.len(),
{
    if s.len() < 2 {
        s.len() as int
    } else if s[0] == '\n' && s[1] == '\n' {
        0
    } else {
        1 + sep_idx(s.subrange(1, s.len() as int))
    }
}

proof fn lemma_sep_idx(s: Seq<char>)
    ensures
        0 <= sep_idx(s) <= s.len(),
        forall|j: int| 0 <= j < sep_idx(s) && j + 1 < s.len() ==> !(#[trigger] s[j] == '\n' && s[j
            + 1] == '\n'),
        sep_idx(s) < s.len() ==> sep_idx(s) + 1 < s.len() && s[sep_idx(s)] == '\n' && s[sep_idx(s)
            + 1] == '\n',
    decreases s.len(),
{
    if s.len() >= 2 && !(s[0] == '\n' && s[1] == '\n') {
        let sub = s.subrange(1, s.len() as int);
        lemma_sep_idx(sub);
        assert forall|j: int|
            0 <= j < sep_idx(s) && j + 1 < s.len() implies !(#[trigger] s[j] == '\n' && s[j + 1]
            == '\n') by {
            if j >= 1 {
                assert(s[j] == sub[j - 1] && s[j + 1] == sub[j]);
            }
        }
        if sep_idx(s) < s.len() {
            assert(s[sep_idx(s)] == sub[sep_idx(s) - 1]);
            assert(s[sep_idx(s) + 1] == sub[sep_idx(s)]);
        }
    }
}

/// The description split at blank lines into paragraphs.
pub open spec fn spec_paragraphs(s: Seq<char>) -> Seq<Seq<char>>
    decreases s.len(),
    via spec_paragraphs_decreases
{
    let e = sep_idx(s);
    if e == s.len() {
        seq![s]
    } else {
        seq![s.subrange(0, e)] + spec_paragraphs(s.subrange(e + 2, s.len() as int))
    }
}

#[via_fn]
proof fn spec_paragraphs_decreases(s: Seq<char>) {
    lemma_sep_idx(s);
}

fn find_sep(s: &str) -> (e: usize)
    ensures
        e == sep_idx(s@),
{
    proof {
        lemma_sep_idx(s@);
    }
    let n: usize = s.unicode_len();
    let mut i: usize = 0;
    while n - i > 1 && !(s.get_char(i) == '\n' && s.get_char(i + 1) == '\n')
        invariant
            0 <= i <= n,
            n == s@.len(),
            forall|j: int| 0 <= j < i && j + 1 < s@.len() ==> !(#[trigger] s@[j] == '\n' && s@[j
                + 1] == '\n'),
        decreases n - i,
    {
        i = i + 1;
    }
    if n - i > 1 {
        proof {
            assert(i == sep_idx(s@));
        }
        i
    } else {
        proof {
            if sep_idx(s@) < s@.len() {
                assert(!(s@[sep_idx(s@)] == '\n' && s@[sep_idx(s@) + 1] == '\n'));
            }
        }
        n
    }
}

fn split_paragraphs(s: &str) -> (r: Vec<String>)
    ensures
        r@.map_values(|x: String| x@) == spec_paragraphs(s@),
    decreases s@.len(),
{
    proof {
        lemma_sep_idx(s@);
    }
    let n: usize = s.unicode_len();
    let e: usize = find_sep(s);
    if e == n {
        let mut out: Vec<String> = Vec::new();
        out.push(s.to_owned());
        proof {
            assert(out@.map_values(|x: String| x@) =~= seq![s@]);
        }
        out
    } else {
        let first = s.substring_char(0, e);
        let rest = s.substring_char(e + 2, n);
        let mut out: Vec<String> = Vec::new();
        out.push(first.to_owned());
        let mut tail = split_paragraphs(rest);
        out.append(&mut tail);
        proof {
            assert(out@.map_values(|x: String| x@) =~= seq![first@]
                + spec_paragraphs(rest@));
        }
        out
    }
}

/// What building an entry from a record yields.
pub open spec fn spec_into_entry(d: DocItemV, category: Seq<char>) -> ManualEntryV {
    ManualEntryV {
        category: category,
        name: d.name,
        description: spec_paragraphs(d.comment.doc),
        fn_type: d.comment.doc_type,
        example: d.comment.example,
        args: d.args,
    }
}

impl DocItem {
    /// Attach the rendering category and split the description into
    /// paragraphs, yielding the entry the renderer consumes.
    pub fn into_entry(self, category: &str) -> (r: ManualEntry)
        ensures
            r@ == spec_into_entry(self@, category@),
    {
        ManualEntry {
            category: category.to_owned(),
            name: self.name,
            description: split_paragraphs(self.comment.doc.as_str()),
            fn_type: self.comment.doc_type,
            example: self.comment.example,
            args: self.args,
        }
    }
}

/// What the comment lookup on one binding yields: a record whose sections
/// come from the attached comment, found with line comments disallowed;
/// `None` when no comment qualifies, so the binding stays undocumented.
pub open spec fn spec_doc_item(toks: Seq<Tok>, name: Seq<char>, start: int) -> Option<DocItemV> {
    match spec_find_comment(toks, start, false) {
        None => None,
        Some(c) => Some(
            DocItemV { name: name, comment: spec_parse_doc_comment(c), args: Seq::empty() },
        ),
    }
}

/// Look up the comment attached to the binding whose node starts at token
/// `start` and parse it into a record.
pub fn retrieve_doc_item(toks: &Vec<Tok>, name: &String, start: usize) -> (r: Option<DocItem>)
    requires
        start <= toks@.len(),
    ensures
        match r {
            Some(d) => spec_doc_item(toks@, name@, start as int) == Some(d@),
            None => spec_doc_item(toks@, name@, start as int) is None,
        },
{
    match retrieve_doc_comment(toks, start, false) {
        None => None,
        Some(c) => {
            let comment = parse_doc_comment(c.as_str());
            let args: Vec<Argument> = Vec::new();
            proof {
                assert(args_view(args@) =~= Seq::<ArgumentV>::empty());
            }
            Some(DocItem { name: dup_string(name), comment, args })
        },
    }
}

/// The argument extracted from one parameter position.
pub open spec fn spec_arg(toks: Seq<Tok>, p: LambdaParam) -> ArgumentV {
    match p {
        LambdaParam::Ident { name, start } => ArgumentV::Flat(
            SingleArgV { name: name@, doc: spec_find_comment(toks, start as int, true) },
        ),
        LambdaParam::Pattern { entries } => ArgumentV::Pattern(
            entries@.map_values(
                |pe: PatEntry|
                    SingleArgV {
                        name: pe.name@,
                        doc: spec_find_comment(toks, pe.start as int, true),
                    },
            ),
        ),
    }
}

/// The arguments of a curried function: one per nesting level, stopping at
/// the first body that is not itself a function.
pub open spec fn spec_lambda_args(toks: Seq<Tok>, e: NixExpr) -> Seq<ArgumentV>
    decreases e,
{
    match e {
        NixExpr::Lambda { param, body } => {
            let a = spec_arg(toks, param);
            if *body is Lambda {
                seq![a] + spec_lambda_args(toks, *body)
            } else {
                seq![a]
            }
        },
        _ => Seq::empty(),
    }
}

fn dup_string(s: &String) -> (r: String)
    ensures
        r@ == s@,
{
    s.clone()
}

fn make_argument(toks: &Vec<Tok>, p: &LambdaParam) -> (r: Argument)
    requires
        wf_param(*p, toks@.len() as int),
    ensures
        r@ == spec_arg(toks@, *p),
{
    match p {
        LambdaParam::Ident { name, start } => {
            let doc = retrieve_doc_comment(toks, *start, true);
            Argument::Flat(SingleArg { name: dup_string(name), doc })
        },
        LambdaParam::Pattern { entries } => {
            let n = entries.len();
            let mut out: Vec<SingleArg> = Vec::new();
            let mut k: usize = 0;
            while k < n
                invariant
                    0 <= k <= n,
                    n == entries@.len(),
                    wf_param(*p, toks@.len() as int),
                    p is Pattern,
                    entries@ == p->Pattern_entries@,
                    out@.len() == k,
                    forall|i: int|
                        0 <= i < k ==> (#[trigger] out@[i])@ == (SingleArgV {
                            name: entries@[i].name@,
                            doc: spec_find_comment(toks@, entries@[i].start as int, true),
                        }),
                decreases n - k,
            {
                let pe = &entries[k];
                let doc = retrieve_doc_comment(toks, pe.start, true);
                out.push(SingleArg { name: dup_string(&pe.name), doc });
                k = k + 1;
            }
            proof {
                assert(out@.map_values(|x: SingleArg| x@) =~= entries@.map_values(
                    |pe: PatEntry|
                        SingleArgV {
                            name: pe.name@,
                            doc: spec_find_comment(toks@, pe.start as int, true),
                        },
                ));
            }
            Argument::Pattern(out)
        },
    }
}

/// Collect the parameters of a function node, one argument per curry level.
pub fn collect_lambda_args(toks: &Vec<Tok>, e: &NixExpr) -> (r: Vec<Argument>)
    requires
        *e is Lambda,
        wf_expr(*e, toks@.len() as int),
    ensures
        args_view(r@) == spec_lambda_args(toks@, *e),
    decreases *e,
{
    match e {
        NixExpr::Lambda { param, body } => {
            let a = make_argument(toks, param);
            let mut out: Vec<Argument> = Vec::new();
            out.push(a);
            let inner = matches!(&**body, NixExpr::Lambda { .. });
            if inner {
                let mut rest = collect_lambda_args(toks, body);
                out.append(&mut rest);
                proof {
                    assert(args_view(out@) =~= seq![spec_arg(toks@, *param)] + spec_lambda_args(
                        toks@,
                        **body,
                    ));
                }
            } else {
                proof {
                    assert(args_view(out@) =~= seq![spec_arg(toks@, *param)]);
                }
            }
            out
        },
        _ => {
            proof {
                assert(false);
            }
            Vec::new()
        },
    }
}

/// What extracting one binding yields: the record with the parameters
/// attached when the bound value is a function.
pub open spec fn spec_entry_info(
    toks: Seq<Tok>,
    name: Seq<char>,
    start: int,
    value: NixExpr,
) -> Option<DocItemV> {
    match spec_doc_item(toks, name, start) {
        None => None,
        Some(d) => Some(
            DocItemV {
                name: d.name,
                comment: d.comment,
                args: if value is Lambda {
                    spec_lambda_args(toks, value)
                } else {
                    Seq::empty()
                },
            },
        ),
    }
}

/// Extract one `name = value` binding: its comment, and its parameters when
/// the value is a function.
pub fn collect_entry_information(
    toks: &Vec<Tok>,
    name: &String,
    start: usize,
    value: &NixExpr,
) -> (r: Option<DocItem>)
    requires
        start <= toks@.len(),
        wf_expr(*value, toks@.len() as int),
    ensures
        match r {
            Some(d) => spec_entry_info(toks@, name@, start as int, *value) == Some(d@),
            None => spec_entry_info(toks@, name@, start as int, *value) is None,
        },
{
    match retrieve_doc_item(toks, name, start) {
        None => None,
        Some(d) => {
            let is_lambda = matches!(value, NixExpr::Lambda { .. });
            if is_lambda {
                let args = collect_lambda_args(toks, value);
                Some(DocItem { name: d.name, comment: d.comment, args })
            } else {
                Some(d)
            }
        },
    }
}

fn dup_opt_string(o: &Option<String>) -> (r: Option<String>)
    ensures
        opt_view(r) == opt_view(*o),
{
    match o {
        Some(s) => Some(s.clone()),
        None => None,
    }
}

fn dup_single(a: &SingleArg) -> (r: SingleArg)
    ensures
        r@ == a@,
{
    SingleArg { name: a.name.clone(), doc: dup_opt_string(&a.doc) }
}

fn dup_argument(a: &Argument) -> (r: Argument)
    ensures
        r@ == a@,
{
    match a {
        Argument::Flat(x) => Argument::Flat(dup_single(x)),
        Argument::Pattern(v) => {
            let n = v.len();
            let mut out: Vec<SingleArg> = Vec::new();
            let mut k: usize = 0;
            while k < n
                invariant
                    0 <= k <= n,
                    n == v@.len(),
                    out@.len() == k,
                    forall|i: int| 0 <= i < k ==> (#[trigger] out@[i])@ == v@[i]@,
                decreases n - k,
            {
                out.push(dup_single(&v[k]));
                k = k + 1;
            }
            proof {
                assert(out@.map_values(|x: SingleArg| x@) =~= v@.map_values(|x: SingleArg| x@));
            }
            Argument::Pattern(out)
        },
    }
}

fn dup_string_vec(v: &Vec<String>) -> (r: Vec<String>)
    ensures
        r@.map_values(|s: String| s@) == v@.map_values(|s: String| s@),
{
    let n = v.len();
    let mut out: Vec<String> = Vec::new();
    let mut k: usize = 0;
    while k < n
        invariant
            0 <= k <= n,
            n == v@.len(),
            out@.len() == k,
            forall|i: int| 0 <= i < k ==> (#[trigger] out@[i])@ == v@[i]@,
        decreases n - k,
    {
        out.push(v[k].clone());
        k = k + 1;
    }
    proof {
        assert(out@.map_values(|s: String| s@) =~= v@.map_values(|s: String| s@));
    }
    out
}

fn dup_args_vec(v: &Vec<Argument>) -> (r: Vec<Argument>)
    ensures
        args_view(r@) == args_view(v@),
{
    let n = v.len();
    let mut out: Vec<Argument> = Vec::new();
    let mut k: usize = 0;
    while k < n
        invariant
            0 <= k <= n,
            n == v@.len(),
            out@.len() == k,
            forall|i: int| 0 <= i < k ==> (#[trigger] out@[i])@ == v@[i]@,
        decreases n - k,
    {
        out.push(dup_argument(&v[k]));
        k = k + 1;
    }
    proof {
        assert(args_view(out@) =~= args_view(v@));
    }
    out
}

fn dup_entry(e: &ManualEntry) -> (r: ManualEntry)
    ensures
        r@ == e@,
{
    let r = ManualEntry {
        category: e.category.clone(),
        name: e.name.clone(),
        description: dup_string_vec(&e.description),
        fn_type: dup_opt_string(&e.fn_type),
        example: dup_opt_string(&e.example),
        args: dup_args_vec(&e.args),
    };
    r
}

/// What looking a name up in a scope yields: the entry of the latest pair
/// carrying that name.
pub open spec fn spec_scope_get(scope: Seq<(Seq<char>, ManualEntryV)>, name: Seq<char>) -> Option<
    ManualEntryV,
>
    decreases scope.len(),
{
    if scope.len() == 0 {
        None
    } else if scope.last().0 == name {
        Some(scope.last().1)
    } else {
        spec_scope_get(scope.drop_last(), name)
    }
}

fn scope_get(scope: &Vec<(String, ManualEntry)>, name: &String) -> (r: Option<ManualEntry>)
    ensures
        match r {
            Some(e) => spec_scope_get(scope_view(scope@), name@) == Some(e@),
            None => spec_scope_get(scope_view(scope@), name@) is None,
        },
{
    let ghost full = scope_view(scope@);
    let mut k: usize = scope.len();
    proof {
        assert(full.subrange(0, scope@.len() as int) =~= full);
    }
    while k > 0
        invariant
            0 <= k <= scope@.len(),
            full == scope_view(scope@),
            spec_scope_get(full, name@) == spec_scope_get(
                full.subrange(0, k as int),
                name@,
            ),
        decreases k,
    {
        let p = &scope[k - 1];
        proof {
            assert(full.subrange(0, k as int).last() == full[k - 1]);
            assert(full[k - 1] == (scope@[k - 1].0@, scope@[k - 1].1@));
            assert(full.subrange(0, k as int).drop_last() =~= full.subrange(0, k as int - 1));
        }
        if p.0 == *name {
            return Some(dup_entry(&p.1));
        }
        k = k - 1;
    }
    proof {
        assert(full.subrange(0, 0) =~= Seq::<(Seq<char>, ManualEntryV)>::empty());
    }
    None
}

/// The entries a re-export clause contributes: one per name found in the
/// scope, in source order; names the scope lacks contribute nothing.
pub open spec fn spec_inherited(
    scope: Seq<(Seq<char>, ManualEntryV)>,
    names: Seq<String>,
) -> Seq<ManualEntryV>
    decreases names.len(),
{
    if names.len() == 0 {
        Seq::empty()
    } else {
        let head: Seq<ManualEntryV> = match spec_scope_get(scope, names[0]@) {
            None => Seq::empty(),
            Some(e) => seq![e],
        };
        head + spec_inherited(scope, names.subrange(1, names.len() as int))
    }
}

fn inherited_entries(scope: &Vec<(String, ManualEntry)>, names: &Vec<String>) -> (r: Vec<
    ManualEntry,
>)
    ensures
        entries_view(r@) == spec_inherited(scope_view(scope@), names@),
{
    let n = names.len();
    let mut out: Vec<ManualEntry> = Vec::new();
    let mut k: usize = 0;
    proof {
        assert(names@.subrange(0, n as int) =~= names@);
        assert(entries_view(out@) =~= Seq::<ManualEntryV>::empty());
        assert(Seq::<ManualEntryV>::empty() + spec_inherited(scope_view(scope@), names@)
            =~= spec_inherited(scope_view(scope@), names@));
    }
    while k < n
        invariant
            0 <= k <= n,
            n == names@.len(),
            spec_inherited(scope_view(scope@), names@) == entries_view(out@) + spec_inherited(
                scope_view(scope@),
                names@.subrange(k as int, n as int),
            ),
        decreases n - k,
    {
        let ghost pre = out@;
        let ghost suffix = names@.subrange(k as int, n as int);
        proof {
            assert(suffix[0] == names@[k as int]);
            assert(suffix.subrange(1, suffix.len() as int) =~= names@.subrange(
                k as int + 1,
                n as int,
            ));
        }
        let ghost head: Seq<ManualEntryV> = match spec_scope_get(
            scope_view(scope@),
            names@[k as int]@,
        ) {
            None => Seq::empty(),
            Some(e) => seq![e],
        };
        match scope_get(scope, &names[k]) {
            Some(e) => {
                out.push(e);
                proof {
                    assert(entries_view(out@) =~= entries_view(pre) + head);
                }
            },
            None => {
                proof {
                    assert(entries_view(out@) =~= entries_view(pre) + head);
                }
            },
        }
        proof {
            assert(entries_view(pre) + head + spec_inherited(
                scope_view(scope@),
                names@.subrange(k as int + 1, n as int),
            ) =~= entries_view(pre) + spec_inherited(scope_view(scope@), suffix));
        }
        k = k + 1;
    }
    proof {
        assert(names@.subrange(n as int, n as int) =~= Seq::<String>::empty());
        assert(entries_view(out@) + Seq::<ManualEntryV>::empty() =~= entries_view(out@));
    }
    out
}

/// The entries built from the direct children of a binding set: one per
/// documented plain binding, plus the scope entries of each re-export
/// clause without an explicit source namespace.
pub open spec fn spec_bindings_of(
    toks: Seq<Tok>,
    cs: Seq<SetChild>,
    category: Seq<char>,
    scope: Seq<(Seq<char>, ManualEntryV)>,
) -> Seq<ManualEntryV>
    decreases cs.len(),
{
    if cs.len() == 0 {
        Seq::empty()
    } else {
        let head: Seq<ManualEntryV> = match cs[0] {
            SetChild::Binding { name, start, value } => match spec_entry_info(
                toks,
                name@,
                start as int,
                value,
            ) {
                None => Seq::empty(),
                Some(d) => seq![spec_into_entry(d, category)],
            },
            SetChild::Inherit { has_from, names } => if has_from {
                Seq::empty()
            } else {
                spec_inherited(scope, names@)
            },
            SetChild::Other { .. } => Seq::empty(),
        };
        head + spec_bindings_of(toks, cs.subrange(1, cs.len() as int), category, scope)
    }
}

fn process_children(
    toks: &Vec<Tok>,
    children: &Vec<SetChild>,
    category: &str,
    scope: &Vec<(String, ManualEntry)>,
) -> (r: Vec<ManualEntry>)
    requires
        forall|i: int|
            0 <= i < children@.len() ==> wf_child(#[trigger] children@[i], toks@.len() as int),
    ensures
        entries_view(r@) == spec_bindings_of(toks@, children@, category@, scope_view(scope@)),
{
    let n = children.len();
    let mut out: Vec<ManualEntry> = Vec::new();
    let mut k: usize = 0;
    proof {
        assert(children@.subrange(0, n as int) =~= children@);
        assert(entries_view(out@) =~= Seq::<ManualEntryV>::empty());
        assert(Seq::<ManualEntryV>::empty() + spec_bindings_of(
            toks@,
            children@,
            category@,
            scope_view(scope@),
        ) =~= spec_bindings_of(toks@, children@, category@, scope_view(scope@)));
    }
    while k < n
        invariant
            0 <= k <= n,
            n == children@.len(),
            forall|i: int|
                0 <= i < children@.len() ==> wf_child(#[trigger] children@[i], toks@.len() as int),
            spec_bindings_of(toks@, children@, category@, scope_view(scope@)) == entries_view(out@)
                + spec_bindings_of(
                toks@,
                children@.subrange(k as int, n as int),
                category@,
                scope_view(scope@),
            ),
        decreases n - k,
    {
        let ghost pre = out@;
        let ghost suffix = children@.subrange(k as int, n as int);
        proof {
            assert(suffix[0] == children@[k as int]);
            assert(suffix.subrange(1, suffix.len() as int) =~= children@.subrange(
                k as int + 1,
                n as int,
            ));
            assert(wf_child(children@[k as int], toks@.len() as int));
        }
        let ghost head: Seq<ManualEntryV> = match children@[k as int] {
            SetChild::Binding { name, start, value } => match spec_entry_info(
                toks@,
                name@,
                start as int,
                value,
            ) {
                None => Seq::empty(),
                Some(d) => seq![spec_into_entry(d, category@)],
            },
            SetChild::Inherit { has_from, names } => if has_from {
                Seq::empty()
            } else {
                spec_inherited(scope_view(scope@), names@)
            },
            SetChild::Other { .. } => Seq::empty(),
        };
        match &children[k] {
            SetChild::Binding { name, start, value } => {
                match collect_entry_information(toks, name, *start, value) {
                    Some(di) => {
                        let entry = di.into_entry(category);
                        out.push(entry);
                        proof {
                            assert(entries_view(out@) =~= entries_view(pre) + head);
                        }
                    },
                    None => {
                        proof {
                            assert(entries_view(out@) =~= entries_view(pre) + head);
                        }
                    },
                }
            },
            SetChild::Inherit { has_from, names } => {
                if !*has_from {
                    let mut add = inherited_entries(scope, names);
                    out.append(&mut add);
                    proof {
                        assert(entries_view(out@) =~= entries_view(pre) + head);
                    }
                } else {
                    proof {
                        assert(entries_view(out@) =~= entries_view(pre) + head);
                    }
                }
            },
            SetChild::Other { .. } => {
                proof {
                    assert(entries_view(out@) =~= entries_view(pre) + head);
                }
            },
        }
        proof {
            assert(entries_view(pre) + head + spec_bindings_of(
                toks@,
                children@.subrange(k as int + 1, n as int),
                category@,
                scope_view(scope@),
            ) =~= entries_view(pre) + spec_bindings_of(toks@, suffix, category@, scope_view(scope@)));
        }
        k = k + 1;
    }
    proof {
        assert(children@.subrange(n as int, n as int) =~= Seq::<SetChild>::empty());
        assert(entries_view(out@) + Seq::<ManualEntryV>::empty() =~= entries_view(out@));
    }
    out
}

fn find_attrset_ref<'a>(e: &'a NixExpr) -> (r: Option<&'a NixExpr>)
    ensures
        match r {
            Some(a) => find_attrset(*e) == Some(*a) && *a is AttrSet,
            None => find_attrset(*e) is None,
        },
    decreases *e,
{
    match e {
        NixExpr::AttrSet { .. } => Some(e),
        NixExpr::LetIn { children, body } => {
            let n = children.len();
            let mut k: usize = 0;
            proof {
                assert(children@.subrange(0, n as int) =~= children@);
            }
            while k < n
                invariant
                    0 <= k <= n,
                    n == children@.len(),
                    e is LetIn,
                    children@ == e->LetIn_children@,
                    find_attrset_in_children(children@) == find_attrset_in_children(
                        children@.subrange(k as int, n as int),
                    ),
                decreases n - k,
            {
                let ghost suffix = children@.subrange(k as int, n as int);
                proof {
                    assert(suffix[0] == children@[k as int]);
                    assert(suffix.subrange(1, suffix.len() as int) =~= children@.subrange(
                        k as int + 1,
                        n as int,
                    ));
                }
                let found: Option<&NixExpr> = match &children[k] {
                    SetChild::Binding { value, .. } => find_attrset_ref(value),
                    SetChild::Inherit { .. } => None,
                    SetChild::Other { node } => find_attrset_ref(node),
                };
                match found {
                    Some(a) => {
                        return Some(a);
                    },
                    None => {},
                }
                k = k + 1;
            }
            proof {
                assert(children@.subrange(n as int, n as int) =~= Seq::<SetChild>::empty());
            }
            find_attrset_ref(body)
        },
        NixExpr::Lambda { body, .. } => find_attrset_ref(body),
        NixExpr::Node { children } => {
            let n = children.len();
            let mut k: usize = 0;
            proof {
                assert(children@.subrange(0, n as int) =~= children@);
            }
            while k < n
                invariant
                    0 <= k <= n,
                    n == children@.len(),
                    e is Node,
                    children@ == e->Node_children@,
                    find_attrset_in_list(children@) == find_attrset_in_list(
                        children@.subrange(k as int, n as int),
                    ),
                decreases n - k,
            {
                let ghost suffix = children@.subrange(k as int, n as int);
                proof {
                    assert(suffix[0] == children@[k as int]);
                    assert(suffix.subrange(1, suffix.len() as int) =~= children@.subrange(
                        k as int + 1,
                        n as int,
                    ));
                }
                match find_attrset_ref(&children[k]) {
                    Some(a) => {
                        return Some(a);
                    },
                    None => {},
                }
                k = k + 1;
            }
            proof {
                assert(children@.subrange(n as int, n as int) =~= Seq::<NixExpr>::empty());
            }
            None
        },
    }
}

/// What collecting from a search root yields: the entries of the first
/// binding set found in preorder, or nothing when none exists.
pub open spec fn spec_collect_bindings(
    toks: Seq<Tok>,
    e: NixExpr,
    category: Seq<char>,
    scope: Seq<(Seq<char>, ManualEntryV)>,
) -> Seq<ManualEntryV> {
    match find_attrset(e) {
        Some(a) => match a {
            NixExpr::AttrSet { children } => spec_bindings_of(toks, children@, category, scope),
            _ => Seq::empty(),
        },
        None => Seq::empty(),
    }
}

/// Find the first binding set under `node` and build the entries of its
/// direct children, resolving re-exports against `scope`.
pub fn collect_bindings(
    toks: &Vec<Tok>,
    node: &NixExpr,
    category: &str,
    scope: &Vec<(String, ManualEntry)>,
) -> (r: Vec<ManualEntry>)
    requires
        wf_expr(*node, toks@.len() as int),
    ensures
        entries_view(r@) == spec_collect_bindings(toks@, *node, category@, scope_view(scope@)),
{
    proof {
        lemma_find_attrset_wf(*node, toks@.len() as int);
    }
    match find_attrset_ref(node) {
        None => {
            let out: Vec<ManualEntry> = Vec::new();
            proof {
                assert(entries_view(out@) =~= Seq::<ManualEntryV>::empty());
            }
            out
        },
        Some(a) => match a {
            NixExpr::AttrSet { children } => process_children(toks, children, category, scope),
            _ => {
                proof {
                    assert(false);
                }
                Vec::new()
            },
        },
    }
}

/// The scope a local-binding header provides: one pair per documented plain
/// binding among its direct children, in source order.
pub open spec fn spec_scope_of(toks: Seq<Tok>, cs: Seq<SetChild>, category: Seq<char>) -> Seq<
    (Seq<char>, ManualEntryV),
>
    decreases cs.len(),
{
    if cs.len() == 0 {
        Seq::empty()
    } else {
        let head: Seq<(Seq<char>, ManualEntryV)> = match cs[0] {
            SetChild::Binding { name, start, value } => match spec_entry_info(
                toks,
                name@,
                start as int,
                value,
            ) {
                None => Seq::empty(),
                Some(d) => seq![(d.name, spec_into_entry(d, category))],
            },
            _ => Seq::empty(),
        };
        head + spec_scope_of(toks, cs.subrange(1, cs.len() as int), category)
    }
}

fn build_scope(toks: &Vec<Tok>, children: &Vec<SetChild>, category: &str) -> (r: Vec<
    (String, ManualEntry),
>)
    requires
        forall|i: int|
            0 <= i < children@.len() ==> wf_child(#[trigger] children@[i], toks@.len() as int),
    ensures
        scope_view(r@) == spec_scope_of(toks@, children@, category@),
{
    let n = children.len();
    let mut out: Vec<(String, ManualEntry)> = Vec::new();
    let mut k: usize = 0;
    proof {
        assert(children@.subrange(0, n as int) =~= children@);
        assert(scope_view(out@) =~= Seq::<(Seq<char>, ManualEntryV)>::empty());
        assert(Seq::<(Seq<char>, ManualEntryV)>::empty() + spec_scope_of(
            toks@,
            children@,
            category@,
        ) =~= spec_scope_of(toks@, children@, category@));
    }
    while k < n
        invariant
            0 <= k <= n,
            n == children@.len(),
            forall|i: int|
                0 <= i < children@.len() ==> wf_child(#[trigger] children@[i], toks@.len() as int),
            spec_scope_of(toks@, children@, category@) == scope_view(out@) + spec_scope_of(
                toks@,
                children@.subrange(k as int, n as int),
                category@,
            ),
        decreases n - k,
    {
        let ghost pre = out@;
        let ghost suffix = children@.subrange(k as int, n as int);
        proof {
            assert(suffix[0] == children@[k as int]);
            assert(suffix.subrange(1, suffix.len() as int) =~= children@.subrange(
                k as int + 1,
                n as int,
            ));
            assert(wf_child(children@[k as int], toks@.len() as int));
        }
        let ghost head: Seq<(Seq<char>, ManualEntryV)> = match children@[k as int] {
            SetChild::Binding { name, start, value } => match spec_entry_info(
                toks@,
                name@,
                start as int,
                value,
            ) {
                None => Seq::empty(),
                Some(d) => seq![(d.name, spec_into_entry(d, category@))],
            },
            _ => Seq::empty(),
        };
        match &children[k] {
            SetChild::Binding { name, start, value } => {
                match collect_entry_information(toks, name, *start, value) {
                    Some(di) => {
                        let nm = dup_string(&di.name);
                        let entry = di.into_entry(category);
                        out.push((nm, entry));
                        proof {
                            assert(scope_view(out@) =~= scope_view(pre) + head);
                        }
                    },
                    None => {
                        proof {
                            assert(scope_view(out@) =~= scope_view(pre) + head);
                        }
                    },
                }
            },
            _ => {
                proof {
                    assert(scope_view(out@) =~= scope_view(pre) + head);
                }
            },
        }
        proof {
            assert(scope_view(pre) + head + spec_scope_of(
                toks@,
                children@.subrange(k as int + 1, n as int),
                category@,
            ) =~= scope_view(pre) + spec_scope_of(toks@, suffix, category@));
        }
        k = k + 1;
    }
    proof {
        assert(children@.subrange(n as int, n as int) =~= Seq::<SetChild>::empty());
        assert(scope_view(out@) + Seq::<(Seq<char>, ManualEntryV)>::empty() =~= scope_view(out@));
    }
    out
}

fn find_target_ref<'a>(e: &'a NixExpr) -> (r: Option<&'a NixExpr>)
    ensures
        match r {
            Some(a) => find_target(*e) == Some(*a) && (*a is AttrSet || *a is LetIn),
            None => find_target(*e) is None,
        },
    decreases *e,
{
    match e {
        NixExpr::AttrSet { .. } => Some(e),
        NixExpr::LetIn { .. } => Some(e),
        NixExpr::Lambda { body, .. } => find_target_ref(body),
        NixExpr::Node { children } => {
            let n = children.len();
            let mut k: usize = 0;
            proof {
                assert(children@.subrange(0, n as int) =~= children@);
            }
            while k < n
                invariant
                    0 <= k <= n,
                    n == children@.len(),
                    e is Node,
                    children@ == e->Node_children@,
                    find_target_in_list(children@) == find_target_in_list(
                        children@.subrange(k as int, n as int),
                    ),
                decreases n - k,
            {
                let ghost suffix = children@.subrange(k as int, n as int);
                proof {
                    assert(suffix[0] == children@[k as int]);
                    assert(suffix.subrange(1, suffix.len() as int) =~= children@.subrange(
                        k as int + 1,
                        n as int,
                    ));
                }
                match find_target_ref(&children[k]) {
                    Some(a) => {
                        return Some(a);
                    },
                    None => {},
                }
                k = k + 1;
            }
            proof {
                assert(children@.subrange(n as int, n as int) =~= Seq::<NixExpr>::empty());
            }
            None
        },
    }
}

/// What scanning a whole file yields: the first local-binding construct
/// provides a scope for its trailing body, a first binding set is collected
/// directly, and a file with neither yields nothing.
pub open spec fn spec_collect_entries(
    toks: Seq<Tok>,
    root: NixExpr,
    category: Seq<char>,
) -> Seq<ManualEntryV> {
    match find_target(root) {
        Some(a) => match a {
            NixExpr::LetIn { children, body } => spec_collect_bindings(
                toks,
                *body,
                category,
                spec_scope_of(toks, children@, category),
            ),
            _ => spec_collect_bindings(toks, a, category, Seq::empty()),
        },
        None => Seq::empty(),
    }
}

/// Scan a parsed file: find the first local-binding construct or binding
/// set and collect the documented entries under it.
pub fn collect_entries(toks: &Vec<Tok>, root: &NixExpr, category: &str) -> (r: Vec<ManualEntry>)
    requires
        wf_expr(*root, toks@.len() as int),
    ensures
        entries_view(r@) == spec_collect_entries(toks@, *root, category@),
{
    proof {
        lemma_find_target_wf(*root, toks@.len() as int);
    }
    match find_target_ref(root) {
        None => {
            let out: Vec<ManualEntry> = Vec::new();
            proof {
                assert(entries_view(out@) =~= Seq::<ManualEntryV>::empty());
            }
            out
        },
        Some(t) => match t {
            NixExpr::LetIn { children, body } => {
                let scope = build_scope(toks, children, category);
                collect_bindings(toks, body, category, &scope)
            },
            _ => {
                let empty_scope: Vec<(String, ManualEntry)> = Vec::new();
                proof {
                    assert(scope_view(empty_scope@) =~= Seq::<(Seq<char>, ManualEntryV)>::empty());
                }
                collect_bindings(toks, t, category, &empty_scope)
            },
        },
    }
}

} // verus!
