//! The records that describe each function and type found, their checks, and
//! the counts gathered over them.
use vstd::prelude::*;
use crate::error::AnalyzerError;
use crate::text::{copy_strings, spec_contains, str_contains, str_eq, to_string};

verus! {

/// A function, method, macro, constant or static found in the sources.
#[derive(Clone)]
pub struct MethodOutput {
    pub name: String,
    pub signature: String,
    pub begin_line: u32,
    pub end_line: u32,
    pub filename: String,
    pub modifier: String,
    pub params: Vec<ParameterInfo>,
    pub return_type: String,
    pub callees: Vec<String>,
}

#[derive(Clone)]
pub struct ParameterInfo {
    pub name: String,
    pub param_type: String,
}

/// A struct, enum, trait or union found in the sources.
#[derive(Clone)]
pub struct StructOutput {
    pub name: String,
    pub fullname: String,
    pub filename: String,
    pub begin_line: u32,
    pub methods: Vec<String>,
    pub attributes: Vec<AttributeInfo>,
}

/// A field, variant, trait item or union field of a type.
#[derive(Clone)]
pub struct AttributeInfo {
    pub name: String,
    pub attr_type: String,
    pub modifier: String,
}

/// A method record as plain sequences.
pub struct MethodRecord {
    pub name: Seq<char>,
    pub signature: Seq<char>,
    pub begin_line: u32,
    pub end_line: u32,
    pub filename: Seq<char>,
    pub modifier: Seq<char>,
    /// Each parameter's name and type.
    pub params: Seq<(Seq<char>, Seq<char>)>,
    pub return_type: Seq<char>,
    pub callees: Seq<Seq<char>>,
}

impl View for MethodOutput {
    type V = MethodRecord;

    open spec fn view(&self) -> MethodRecord {
        MethodRecord {
            name: self.name@,
            signature: self.signature@,
            begin_line: self.begin_line,
            end_line: self.end_line,
            filename: self.filename@,
            modifier: self.modifier@,
            params: self.params@.map_values(|p: ParameterInfo| (p.name@, p.param_type@)),
            return_type: self.return_type@,
            callees: self.callees@.map_values(|c: String| c@),
        }
    }
}

/// A type record as plain sequences.
pub struct StructRecord {
    pub name: Seq<char>,
    pub fullname: Seq<char>,
    pub filename: Seq<char>,
    pub begin_line: u32,
    pub methods: Seq<Seq<char>>,
    /// Each attribute's name, type and modifier.
    pub attributes: Seq<(Seq<char>, Seq<char>, Seq<char>)>,
}

impl View for StructOutput {
    type V = StructRecord;

    open spec fn view(&self) -> StructRecord {
        StructRecord {
            name: self.name@,
            fullname: self.fullname@,
            filename: self.filename@,
            begin_line: self.begin_line,
            methods: self.methods@.map_values(|m: String| m@),
            attributes: self.attributes@.map_values(|a: AttributeInfo| (a.name@, a.attr_type@, a.modifier@)),
        }
    }
}

impl ParameterInfo {
    /// A copy of the record.
    pub fn copy(&self) -> (res: Self)
        ensures
            res == *self,
    {
        ParameterInfo { name: self.name.clone(), param_type: self.param_type.clone() }
    }
}

impl AttributeInfo {
    /// A copy of the record.
    pub fn copy(&self) -> (res: Self)
        ensures
            res == *self,
    {
        AttributeInfo {
            name: self.name.clone(),
            attr_type: self.attr_type.clone(),
            modifier: self.modifier.clone(),
        }
    }
}

/// A copy of parameter records.
pub fn copy_params(v: &Vec<ParameterInfo>) -> (res: Vec<ParameterInfo>)
    ensures
        res@ == v@,
{
    let mut out: Vec<ParameterInfo> = Vec::new();
    let mut i: usize = 0;
    while i < v.len()
        invariant
            i <= v.len(),
            out@ == v@.take(i as int),
        decreases v.len() - i,
    {
        out.push(v[i].copy());
        assert(out@ =~= v@.take(i + 1));
        i = i + 1;
    }
    assert(v@.take(v.len() as int) =~= v@);
    out
}

/// A copy of attribute records.
pub fn copy_attributes(v: &Vec<AttributeInfo>) -> (res: Vec<AttributeInfo>)
    ensures
        res@ == v@,
{
    let mut out: Vec<AttributeInfo> = Vec::new();
    let mut i: usize = 0;
    while i < v.len()
        invariant
            i <= v.len(),
            out@ == v@.take(i as int),
        decreases v.len() - i,
    {
        out.push(v[i].copy());
        assert(out@ =~= v@.take(i + 1));
        i = i + 1;
    }
    assert(v@.take(v.len() as int) =~= v@);
    out
}

impl MethodOutput {
    pub open spec fn same(&self, o: &MethodOutput) -> bool {
        &&& self.name == o.name
        &&& self.signature == o.signature
        &&& self.begin_line == o.begin_line
        &&& self.end_line == o.end_line
        &&& self.filename == o.filename
        &&& self.modifier == o.modifier
        &&& self.params@ == o.params@
        &&& self.return_type == o.return_type
        &&& self.callees@ == o.callees@
    }

    /// A copy of the record.
    pub fn copy(&self) -> (res: Self)
        ensures
            res.same(self),
    {
        MethodOutput {
            name: self.name.clone(),
            signature: self.signature.clone(),
            begin_line: self.begin_line,
            end_line: self.end_line,
            filename: self.filename.clone(),
            modifier: self.modifier.clone(),
            params: copy_params(&self.params),
            return_type: self.return_type.clone(),
            callees: copy_strings(&self.callees),
        }
    }
}

impl StructOutput {
    pub open spec fn same(&self, o: &StructOutput) -> bool {
        &&& self.name == o.name
        &&& self.fullname == o.fullname
        &&& self.filename == o.filename
        &&& self.begin_line == o.begin_line
        &&& self.methods@ == o.methods@
        &&& self.attributes@ == o.attributes@
    }

    /// A copy of the record.
    pub fn copy(&self) -> (res: Self)
        ensures
            res.same(self),
    {
        StructOutput {
            name: self.name.clone(),
            fullname: self.fullname.clone(),
            filename: self.filename.clone(),
            begin_line: self.begin_line,
            methods: copy_strings(&self.methods),
            attributes: copy_attributes(&self.attributes),
        }
    }
}

pub const MSG_EMPTY_METHOD_NAME: &'static str = "方法名称不能为空";
pub const MSG_EMPTY_SIGNATURE: &'static str = "方法签名不能为空";
pub const MSG_EMPTY_FILENAME: &'static str = "文件名不能为空";
pub const MSG_ZERO_BEGIN_LINE: &'static str = "开始行号必须大于0";
pub const MSG_END_BEFORE_BEGIN: &'static str = "结束行号不能小于开始行号";
pub const MSG_EMPTY_PARAM_NAME: &'static str = "参数名称不能为空";
pub const MSG_EMPTY_PARAM_TYPE: &'static str = "参数类型不能为空";
pub const MSG_EMPTY_STRUCT_NAME: &'static str = "结构体名称不能为空";
pub const MSG_EMPTY_FULLNAME: &'static str = "完整名称不能为空";
pub const MSG_EMPTY_ATTR_NAME: &'static str = "属性名称不能为空";
pub const MSG_EMPTY_ATTR_TYPE: &'static str = "属性类型不能为空";

/// The message of the first parameter with an empty name or type.
pub open spec fn params_problem(ps: Seq<ParameterInfo>) -> Option<Seq<char>>
    decreases ps.len(),
{
    if ps.len() == 0 {
        None
    } else if ps[0].name@.len() == 0 {
        Some(MSG_EMPTY_PARAM_NAME@)
    } else if ps[0].param_type@.len() == 0 {
        Some(MSG_EMPTY_PARAM_TYPE@)
    } else {
        params_problem(ps.drop_first())
    }
}

/// The message of the first check a method record fails, in the order the
/// checks are made; `None` when it passes them all.
pub open spec fn method_problem(m: MethodOutput) -> Option<Seq<char>> {
    if m.name@.len() == 0 {
        Some(MSG_EMPTY_METHOD_NAME@)
    } else if m.signature@.len() == 0 {
        Some(MSG_EMPTY_SIGNATURE@)
    } else if m.filename@.len() == 0 {
        Some(MSG_EMPTY_FILENAME@)
    } else if m.begin_line == 0 {
        Some(MSG_ZERO_BEGIN_LINE@)
    } else if m.end_line < m.begin_line {
        Some(MSG_END_BEFORE_BEGIN@)
    } else {
        params_problem(m.params@)
    }
}

/// The message of the first attribute with an empty name or type.
pub open spec fn attributes_problem(ats: Seq<AttributeInfo>) -> Option<Seq<char>>
    decreases ats.len(),
{
    if ats.len() == 0 {
        None
    } else if ats[0].name@.len() == 0 {
        Some(MSG_EMPTY_ATTR_NAME@)
    } else if ats[0].attr_type@.len() == 0 {
        Some(MSG_EMPTY_ATTR_TYPE@)
    } else {
        attributes_problem(ats.drop_first())
    }
}

/// The message of the first check a type record fails; `None` when it passes.
pub open spec fn struct_problem(s: StructOutput) -> Option<Seq<char>> {
    if s.name@.len() == 0 {
        Some(MSG_EMPTY_STRUCT_NAME@)
    } else if s.fullname@.len() == 0 {
        Some(MSG_EMPTY_FULLNAME@)
    } else if s.filename@.len() == 0 {
        Some(MSG_EMPTY_FILENAME@)
    } else if s.begin_line == 0 {
        Some(MSG_ZERO_BEGIN_LINE@)
    } else {
        attributes_problem(s.attributes@)
    }
}

/// The outcome of a check: `Ok` when there is no problem, else an output
/// error carrying the problem's message.
pub open spec fn check_outcome(res: Result<(), AnalyzerError>, problem: Option<Seq<char>>) -> bool {
    match problem {
        None => res is Ok,
        Some(msg) => res matches Err(AnalyzerError::OutputError { message }) && message@ == msg,
    }
}

fn problem_error(msg: &str) -> (res: Result<(), AnalyzerError>)
    ensures
        res matches Err(AnalyzerError::OutputError { message }) && message@ == msg@,
{
    Err(AnalyzerError::OutputError { message: to_string(msg) })
}

/// Writes the records it is given as JSON lines under `output_path`.
pub struct OutputGenerator {
    output_path: String,
}

impl OutputGenerator {
    pub closed spec fn spec_output_path(&self) -> Seq<char> {
        self.output_path@
    }

    /// A generator writing under `output_path`.
    pub fn new(output_path: String) -> (res: Self)
        ensures
            res.spec_output_path() == output_path@,
    {
        OutputGenerator { output_path }
    }

    /// The output directory.
    pub fn output_path(&self) -> (res: &String)
        ensures
            res@ == self.spec_output_path(),
    {
        &self.output_path
    }

    /// Checks that a method record is complete: names, signature and file
    /// non-empty, lines ordered and from 1, every parameter named and typed.
    pub fn validate_method_output(&self, method: &MethodOutput) -> (res: Result<(), AnalyzerError>)
        ensures
            check_outcome(res, method_problem(*method)),
    {
        if method.name.as_str().is_empty() {
            return problem_error(MSG_EMPTY_METHOD_NAME);
        }
        if method.signature.as_str().is_empty() {
            return problem_error(MSG_EMPTY_SIGNATURE);
        }
        if method.filename.as_str().is_empty() {
            return problem_error(MSG_EMPTY_FILENAME);
        }
        if method.begin_line == 0 {
            return problem_error(MSG_ZERO_BEGIN_LINE);
        }
        if method.end_line < method.begin_line {
            return problem_error(MSG_END_BEFORE_BEGIN);
        }
        let ps = &method.params;
        let mut i: usize = 0;
        assert(ps@.subrange(0, ps@.len() as int) =~= ps@);
        while i < ps.len()
            invariant
                i <= ps.len(),
                params_problem(ps@) == params_problem(ps@.subrange(i as int, ps@.len() as int)),
                ps@ == method.params@,
                method_problem(*method) == params_problem(method.params@),
            decreases ps.len() - i,
        {
            assert(ps@.subrange(i as int, ps@.len() as int).drop_first() =~= ps@.subrange(
                i + 1,
                ps@.len() as int,
            ));
            assert(ps@.subrange(i as int, ps@.len() as int)[0] == ps@[i as int]);
            if ps[i].name.as_str().is_empty() {
                return problem_error(MSG_EMPTY_PARAM_NAME);
            }
            if ps[i].param_type.as_str().is_empty() {
                return problem_error(MSG_EMPTY_PARAM_TYPE);
            }
            i = i + 1;
        }
        Ok(())
    }

    /// Checks that a type record is complete: names and file non-empty, line
    /// from 1, every attribute named and typed.
    pub fn validate_struct_output(&self, struct_def: &StructOutput) -> (res: Result<(), AnalyzerError>)
        ensures
            check_outcome(res, struct_problem(*struct_def)),
    {
        if struct_def.name.as_str().is_empty() {
            return problem_error(MSG_EMPTY_STRUCT_NAME);
        }
        if struct_def.fullname.as_str().is_empty() {
            return problem_error(MSG_EMPTY_FULLNAME);
        }
        if struct_def.filename.as_str().is_empty() {
            return problem_error(MSG_EMPTY_FILENAME);
        }
        if struct_def.begin_line == 0 {
            return problem_error(MSG_ZERO_BEGIN_LINE);
        }
        let ats = &struct_def.attributes;
        let mut i: usize = 0;
        assert(ats@.subrange(0, ats@.len() as int) =~= ats@);
        while i < ats.len()
            invariant
                i <= ats.len(),
                attributes_problem(ats@) == attributes_problem(
                    ats@.subrange(i as int, ats@.len() as int),
                ),
                ats@ == struct_def.attributes@,
                struct_problem(*struct_def) == attributes_problem(struct_def.attributes@),
            decreases ats.len() - i,
        {
            assert(ats@.subrange(i as int, ats@.len() as int).drop_first() =~= ats@.subrange(
                i + 1,
                ats@.len() as int,
            ));
            assert(ats@.subrange(i as int, ats@.len() as int)[0] == ats@[i as int]);
            if ats[i].name.as_str().is_empty() {
                return problem_error(MSG_EMPTY_ATTR_NAME);
            }
            if ats[i].attr_type.as_str().is_empty() {
                return problem_error(MSG_EMPTY_ATTR_TYPE);
            }
            i = i + 1;
        }
        Ok(())
    }
}

// ---------------------------------------------------------------------------
// Statistics
// ---------------------------------------------------------------------------

/// The number of methods whose modifier mentions `word`.
pub open spec fn count_with_modifier(ms: Seq<MethodOutput>, word: Seq<char>) -> nat
    decreases ms.len(),
{
    if ms.len() == 0 {
        0
    } else {
        count_with_modifier(ms.drop_last(), word) + if spec_contains(ms.last().modifier@, word) {
            1nat
        } else {
            0nat
        }
    }
}

pub open spec fn total_params(ms: Seq<MethodOutput>) -> nat
    decreases ms.len(),
{
    if ms.len() == 0 {
        0
    } else {
        total_params(ms.drop_last()) + ms.last().params@.len()
    }
}

pub open spec fn max_callees(ms: Seq<MethodOutput>) -> nat
    decreases ms.len(),
{
    if ms.len() == 0 {
        0
    } else {
        let m = max_callees(ms.drop_last());
        let c = ms.last().callees@.len();
        if c > m {
            c
        } else {
            m
        }
    }
}

/// Some attribute's modifier is exactly `word`.
pub open spec fn has_attr_modifier(s: StructOutput, word: Seq<char>) -> bool {
    exists|i: int| 0 <= i < s.attributes@.len() && #[trigger] s.attributes@[i].modifier@ == word
}

/// How a type record is counted: an enum when it has a variant, else a trait
/// when it has a trait method, else a struct.
pub open spec fn type_class(s: StructOutput) -> int {
    if has_attr_modifier(s, "VARIANT"@) {
        1
    } else if has_attr_modifier(s, "TRAIT_METHOD"@) {
        2
    } else {
        0
    }
}

pub open spec fn count_class(ss: Seq<StructOutput>, class: int) -> nat
    decreases ss.len(),
{
    if ss.len() == 0 {
        0
    } else {
        count_class(ss.drop_last(), class) + if type_class(ss.last()) == class {
            1nat
        } else {
            0nat
        }
    }
}

pub open spec fn total_attributes(ss: Seq<StructOutput>) -> nat
    decreases ss.len(),
{
    if ss.len() == 0 {
        0
    } else {
        total_attributes(ss.drop_last()) + ss.last().attributes@.len()
    }
}

/// Counts over the analysed methods and types. The averages that the JSON
/// report shows are `total_params / total_methods` and
/// `total_attributes / total_types`.
pub struct AnalysisStatistics {
    pub total_methods: usize,
    pub total_types: usize,
    pub public_methods: usize,
    pub private_methods: usize,
    pub async_methods: usize,
    pub unsafe_methods: usize,
    pub total_params: usize,
    pub max_call_depth: usize,
    pub struct_count: usize,
    pub enum_count: usize,
    pub trait_count: usize,
    pub total_attributes: usize,
}

proof fn lemma_count_le(ms: Seq<MethodOutput>, word: Seq<char>)
    ensures
        count_with_modifier(ms, word) <= ms.len(),
    decreases ms.len(),
{
    if ms.len() > 0 {
        lemma_count_le(ms.drop_last(), word);
    }
}

proof fn lemma_class_le(ss: Seq<StructOutput>, class: int)
    ensures
        count_class(ss, class) <= ss.len(),
    decreases ss.len(),
{
    if ss.len() > 0 {
        lemma_class_le(ss.drop_last(), class);
    }
}

fn count_modifier(methods: &Vec<MethodOutput>, word: &str) -> (res: usize)
    ensures
        res == count_with_modifier(methods@, word@),
{
    let mut c: usize = 0;
    let mut i: usize = 0;
    while i < methods.len()
        invariant
            i <= methods.len(),
            c == count_with_modifier(methods@.take(i as int), word@),
        decreases methods.len() - i,
    {
        proof {
            assert(methods@.take(i + 1).drop_last() =~= methods@.take(i as int));
            lemma_count_le(methods@.take(i as int), word@);
        }
        if str_contains(methods[i].modifier.as_str(), word) {
            c = c + 1;
        }
        i = i + 1;
    }
    assert(methods@.take(methods.len() as int) =~= methods@);
    c
}

fn has_modifier(s: &StructOutput, word: &str) -> (res: bool)
    ensures
        res == has_attr_modifier(*s, word@),
{
    let mut i: usize = 0;
    while i < s.attributes.len()
        invariant
            i <= s.attributes.len(),
            forall|k: int| 0 <= k < i ==> #[trigger] s.attributes@[k].modifier@ != word@,
        decreases s.attributes.len() - i,
    {
        if str_eq(s.attributes[i].modifier.as_str(), word) {
            return true;
        }
        i = i + 1;
    }
    false
}

fn classify(s: &StructOutput) -> (res: u8)
    ensures
        res as int == type_class(*s),
{
    if has_modifier(s, "VARIANT") {
        1
    } else if has_modifier(s, "TRAIT_METHOD") {
        2
    } else {
        0
    }
}

impl AnalysisStatistics {
    /// Counts methods by modifier word (`PUBLIC`, `PRIVATE`, `ASYNC`,
    /// `UNSAFE`), their parameters and the longest callee list, and types by
    /// kind and attributes.
    pub fn new(methods: &Vec<MethodOutput>, structs: &Vec<StructOutput>) -> (res: Self)
        requires
            total_params(methods@) <= usize::MAX,
            total_attributes(structs@) <= usize::MAX,
        ensures
            res.total_methods == methods@.len(),
            res.total_types == structs@.len(),
            res.public_methods == count_with_modifier(methods@, "PUBLIC"@),
            res.private_methods == count_with_modifier(methods@, "PRIVATE"@),
            res.async_methods == count_with_modifier(methods@, "ASYNC"@),
            res.unsafe_methods == count_with_modifier(methods@, "UNSAFE"@),
            res.total_params == total_params(methods@),
            res.max_call_depth == max_callees(methods@),
            res.struct_count == count_class(structs@, 0),
            res.enum_count == count_class(structs@, 1),
            res.trait_count == count_class(structs@, 2),
            res.total_attributes == total_attributes(structs@),
    {
        let public_methods = count_modifier(methods, "PUBLIC");
        let private_methods = count_modifier(methods, "PRIVATE");
        let async_methods = count_modifier(methods, "ASYNC");
        let unsafe_methods = count_modifier(methods, "UNSAFE");
        let mut tp: usize = 0;
        let mut mc: usize = 0;
        let mut i: usize = 0;
        while i < methods.len()
            invariant
                i <= methods.len(),
                total_params(methods@) <= usize::MAX,
                tp == total_params(methods@.take(i as int)),
                mc == max_callees(methods@.take(i as int)),
            decreases methods.len() - i,
        {
            proof {
                assert(methods@.take(i + 1).drop_last() =~= methods@.take(i as int));
                lemma_total_params_mono(methods@, i + 1);
            }
            tp = tp + methods[i].params.len();
            if methods[i].callees.len() > mc {
                mc = methods[i].callees.len();
            }
            i = i + 1;
        }
        assert(methods@.take(methods.len() as int) =~= methods@);
        let mut sc: usize = 0;
        let mut ec: usize = 0;
        let mut tc: usize = 0;
        let mut ta: usize = 0;
        let mut j: usize = 0;
        while j < structs.len()
            invariant
                j <= structs.len(),
                total_attributes(structs@) <= usize::MAX,
                sc == count_class(structs@.take(j as int), 0),
                ec == count_class(structs@.take(j as int), 1),
                tc == count_class(structs@.take(j as int), 2),
                ta == total_attributes(structs@.take(j as int)),
            decreases structs.len() - j,
        {
            proof {
                assert(structs@.take(j + 1).drop_last() =~= structs@.take(j as int));
                lemma_class_le(structs@.take(j as int), 0);
                lemma_class_le(structs@.take(j as int), 1);
                lemma_class_le(structs@.take(j as int), 2);
                lemma_total_attributes_mono(structs@, j + 1);
            }
            let c = classify(&structs[j]);
            if c == 1 {
                ec = ec + 1;
            } else if c == 2 {
                tc = tc + 1;
            } else {
                sc = sc + 1;
            }
            ta = ta + structs[j].attributes.len();
            j = j + 1;
        }
        assert(structs@.take(structs.len() as int) =~= structs@);
        AnalysisStatistics {
            total_methods: methods.len(),
            total_types: structs.len(),
            public_methods,
            private_methods,
            async_methods,
            unsafe_methods,
            total_params: tp,
            max_call_depth: mc,
            struct_count: sc,
            enum_count: ec,
            trait_count: tc,
            total_attributes: ta,
        }
    }
}

proof fn lemma_total_params_mono(ms: Seq<MethodOutput>, k: int)
    requires
        0 <= k <= ms.len(),
    ensures
        total_params(ms.take(k)) <= total_params(ms),
    decreases ms.len(),
{
    if k < ms.len() {
        assert(ms.drop_last().take(k) =~= ms.take(k));
        lemma_total_params_mono(ms.drop_last(), k);
    } else {
        assert(ms.take(k) =~= ms);
    }
}

proof fn lemma_total_attributes_mono(ss: Seq<StructOutput>, k: int)
    requires
        0 <= k <= ss.len(),
    ensures
        total_attributes(ss.take(k)) <= total_attributes(ss),
    decreases ss.len(),
{
    if k < ss.len() {
        assert(ss.drop_last().take(k) =~= ss.take(k));
        lemma_total_attributes_mono(ss.drop_last(), k);
    } else {
        assert(ss.take(k) =~= ss);
    }
}

} // verus!
