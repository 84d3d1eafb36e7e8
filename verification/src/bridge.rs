//! The embedded-runtime bridge: the once-only initialization flag,
//! the preparation of parse and compile calls, the marshaling of the
//! runtime's tagged replies into domain values, and the local
//! personality validator.
//!
//! The foreign runtime itself lives outside this crate; its replies
//! reach the marshaling here as plain tagged values. An operation
//! invoked before initialization fails with RuntimeNotInitialized.

use crate::decimal::{dec_digit, dec_str, digit_str, u64_to_string};
use crate::process::view_string_seq;
use vstd::prelude::*;
use vstd::string::StringExecFns;

verus! {

broadcast use vstd::std_specs::vec::group_vec_axioms;

#[derive(Debug)]
pub enum BridgeError {
    RuntimeNotInitialized,
    ExecutionError(String),
    SerializationError(String),
    FfiError(String),
}

/// A foreign value as the marshaling layer reads it: a string, or a
/// tagged block of fields.
pub enum FfiValue {
    Str(String),
    Block(u8, Vec<FfiValue>),
}

#[derive(Debug)]
pub struct ParseResult {
    pub success: bool,
    pub personality: Option<PersonalityData>,
    pub errors: Vec<ParseError>,
    pub warnings: Vec<String>,
}

#[derive(Debug)]
pub struct PersonalityData {
    pub name: String,
    pub traits: Vec<TraitData>,
    pub knowledge: Vec<KnowledgeDomain>,
    pub behaviors: Vec<BehaviorRule>,
    pub evolution: Vec<EvolutionRule>,
}

/// A named trait with its strength in thousandths, so that a
/// strength of one half is 500; the valid range is 0 to 1000.
#[derive(Debug)]
pub struct TraitData {
    pub name: String,
    pub strength_milli: i64,
    pub modifiers: Vec<String>,
}

/// The mathematical shape of a trait.
pub ghost struct TraitModel {
    pub name: Seq<char>,
    pub strength_milli: i64,
}

impl View for TraitData {
    type V = TraitModel;

    open spec fn view(&self) -> TraitModel {
        TraitModel { name: self.name@, strength_milli: self.strength_milli }
    }
}

#[derive(Debug)]
pub struct KnowledgeDomain {
    pub name: String,
    pub topics: Vec<TopicData>,
    pub connections: Vec<ConnectionData>,
}

#[derive(Debug)]
pub struct TopicData {
    pub name: String,
    pub level: String,
}

/// A cross-domain connection with its strength in thousandths.
#[derive(Debug)]
pub struct ConnectionData {
    pub from_domain: String,
    pub to_domain: String,
    pub strength_milli: i64,
}

#[derive(Debug)]
pub struct BehaviorRule {
    pub condition: String,
    pub action: String,
}

#[derive(Debug)]
pub struct EvolutionRule {
    pub trigger: String,
    pub effect: String,
}

#[derive(Debug)]
pub struct ParseError {
    pub message: String,
    pub line: i32,
    pub column: i32,
    pub filename: String,
}

#[derive(Debug)]
pub struct CompileRequest {
    pub personality: PersonalityData,
    pub target: CompileTarget,
    pub context: Option<String>,
}

#[derive(Clone, Copy, PartialEq, Eq, Structural, Debug)]
pub enum CompileTarget {
    Json,
    Lua,
    Prompt,
    Sql,
    Cypher,
}

#[derive(Debug)]
pub struct CompileResult {
    pub success: bool,
    pub output: Option<String>,
    pub errors: Vec<String>,
}

/// A prepared parse call: the content and the filename the foreign
/// parser is to be handed.
#[derive(Debug)]
pub struct ParseCall {
    pub content: String,
    pub filename: String,
}

/// A prepared compile call: the target's name and the optional
/// context the foreign compiler is to be handed, alongside the
/// encoded personality.
#[derive(Debug)]
pub struct CompileCall {
    pub target: String,
    pub context: Option<String>,
}

/// The name each compile target is encoded under.
pub open spec fn target_name(t: CompileTarget) -> Seq<char> {
    match t {
        CompileTarget::Json => "Json"@,
        CompileTarget::Lua => "Lua"@,
        CompileTarget::Prompt => "Prompt"@,
        CompileTarget::Sql => "Sql"@,
        CompileTarget::Cypher => "Cypher"@,
    }
}

/// The personality name a successful parse reply carries: the first
/// field of the reply's first field, which must be a string.
pub open spec fn personality_name_of(v: FfiValue) -> Option<Seq<char>> {
    match v {
        FfiValue::Block(_t, pfields) => if pfields@.len() >= 1 {
            match pfields@[0] {
                FfiValue::Str(m) => Some(m@),
                _ => None,
            }
        } else {
            None
        },
        _ => None,
    }
}

/// The messages of a failure reply's error list. The list is read
/// as the foreign runtime builds it: a block of tag zero ends the
/// list, any other block carries an error record and the rest of
/// the list; each error record's first field is its message. A
/// value of any other shape is a marshaling failure.
pub open spec fn error_messages_of(v: FfiValue) -> Option<Seq<Seq<char>>>
    decreases v,
{
    match v {
        FfiValue::Block(t, fields) => {
            if t == 0 {
                Some(Seq::<Seq<char>>::empty())
            } else if fields@.len() >= 2 {
                match fields@[0] {
                    FfiValue::Block(_et, efields) => {
                        if efields@.len() >= 1 {
                            match efields@[0] {
                                FfiValue::Str(m) => match error_messages_of(fields@[1]) {
                                    Some(rest) => Some(seq![m@] + rest),
                                    None => None,
                                },
                                _ => None,
                            }
                        } else {
                            None
                        }
                    },
                    _ => None,
                }
            } else {
                None
            }
        },
        _ => None,
    }
}

/// The output a successful compile reply carries: its first field,
/// which must be a string.
pub open spec fn compile_output_of(v: FfiValue) -> Option<Seq<char>> {
    match v {
        FfiValue::Block(_t, fields) => if fields@.len() >= 1 {
            match fields@[0] {
                FfiValue::Str(m) => Some(m@),
                _ => None,
            }
        } else {
            None
        },
        _ => None,
    }
}

/// A strength in thousandths is valid between zero and one.
pub open spec fn strength_in_range(milli: i64) -> bool {
    0 <= milli <= 1000
}

/// The decimal rendering of a strength in thousandths: sign,
/// integer part, and up to three fraction digits with trailing
/// zeros dropped.
pub open spec fn milli_str(m: int) -> Seq<char> {
    let a = if m < 0 {
        -m
    } else {
        m
    };
    let sign: Seq<char> = if m < 0 {
        "-"@
    } else {
        Seq::<char>::empty()
    };
    sign + dec_str(a / 1000) + frac_str(a % 1000)
}

/// The fraction part of a strength rendering, for thousandths from
/// 0 to 999.
pub open spec fn frac_str(f: int) -> Seq<char> {
    if f == 0 {
        Seq::<char>::empty()
    } else if f % 100 == 0 {
        "."@ + seq![dec_digit(f / 100)]
    } else if f % 10 == 0 {
        "."@ + seq![dec_digit(f / 100), dec_digit((f / 10) % 10)]
    } else {
        "."@ + seq![dec_digit(f / 100), dec_digit((f / 10) % 10), dec_digit(f % 10)]
    }
}

/// The warning for one out-of-range trait, naming it and its value.
pub open spec fn trait_warning(t: TraitModel) -> Seq<char> {
    "Trait "@ + t.name + " has invalid strength: "@ + milli_str(t.strength_milli as int)
}

/// The warnings for every out-of-range trait, in order.
pub open spec fn invalid_trait_warnings(ts: Seq<TraitModel>) -> Seq<Seq<char>>
    decreases ts.len(),
{
    if ts.len() == 0 {
        Seq::<Seq<char>>::empty()
    } else {
        invalid_trait_warnings(ts.drop_last()) + if strength_in_range(ts.last().strength_milli) {
            Seq::<Seq<char>>::empty()
        } else {
            seq![trait_warning(ts.last())]
        }
    }
}

pub open spec fn view_traits(s: Seq<TraitData>) -> Seq<TraitModel> {
    s.map_values(|t: TraitData| t@)
}

/// Every warning the validator owes a personality: one if the name
/// is empty, then one per trait whose strength is out of range.
pub open spec fn expected_warnings(name: Seq<char>, traits: Seq<TraitModel>) -> Seq<Seq<char>> {
    (if name.len() == 0 {
        seq!["Personality name is empty"@]
    } else {
        Seq::<Seq<char>>::empty()
    }) + invalid_trait_warnings(traits)
}

/// The bridge's lifecycle flag. The foreign runtime starts at most
/// once process-wide; this records whether this handle considers it
/// started.
pub struct OcamlBridge {
    initialized: bool,
}

impl OcamlBridge {
    pub closed spec fn spec_initialized(self) -> bool {
        self.initialized
    }

    pub fn new() -> (r: OcamlBridge)
        ensures
            !r.spec_initialized(),
    {
        OcamlBridge { initialized: false }
    }

    /// Marks the runtime initialized. May be called many times; the
    /// embedding program performs the once-only foreign startup
    /// before the first call.
    pub fn initialize(&mut self) -> (r: Result<(), BridgeError>)
        ensures
            final(self).spec_initialized(),
            r is Ok,
    {
        self.initialized = true;
        Ok(())
    }

    pub fn is_initialized(&self) -> (r: bool)
        ensures
            r == self.spec_initialized(),
    {
        self.initialized
    }

    /// Clears the flag; the foreign runtime itself is not torn down.
    pub fn cleanup(&mut self) -> (r: Result<(), BridgeError>)
        ensures
            !final(self).spec_initialized(),
            r is Ok,
    {
        self.initialized = false;
        Ok(())
    }

    /// Prepares a parse call: the content as given, and the filename
    /// defaulted when none is given. Fails iff the runtime is not
    /// initialized.
    pub fn parse_personality(&self, dsl_content: &str, filename: Option<&str>) -> (r: Result<
        ParseCall,
        BridgeError,
    >)
        ensures
            (!self.spec_initialized() ==> r matches Err(BridgeError::RuntimeNotInitialized)),
            (self.spec_initialized() ==> (r matches Ok(c) && c.content@ == dsl_content@
                && c.filename@ == match filename {
                Some(f) => f@,
                None => "<string>"@,
            })),
    {
        if !self.is_initialized() {
            return Err(BridgeError::RuntimeNotInitialized);
        }
        let name = match filename {
            Some(f) => f.to_owned(),
            None => "<string>".to_owned(),
        };
        Ok(ParseCall { content: dsl_content.to_owned(), filename: name })
    }

    /// Prepares a compile call: the target's name and the context.
    /// Fails iff the runtime is not initialized.
    pub fn compile_personality(&self, request: &CompileRequest) -> (r: Result<
        CompileCall,
        BridgeError,
    >)
        ensures
            (!self.spec_initialized() ==> r matches Err(BridgeError::RuntimeNotInitialized)),
            (self.spec_initialized() ==> (r matches Ok(c) && c.target@ == target_name(
                request.target,
            ) && (match request.context {
                Some(ctx) => c.context matches Some(x) && x@ == ctx@,
                None => c.context is None,
            }))),
    {
        if !self.is_initialized() {
            return Err(BridgeError::RuntimeNotInitialized);
        }
        let target = match request.target {
            CompileTarget::Json => "Json".to_owned(),
            CompileTarget::Lua => "Lua".to_owned(),
            CompileTarget::Prompt => "Prompt".to_owned(),
            CompileTarget::Sql => "Sql".to_owned(),
            CompileTarget::Cypher => "Cypher".to_owned(),
        };
        let context = match &request.context {
            Some(ctx) => Some(ctx.clone()),
            None => None,
        };
        Ok(CompileCall { target, context })
    }

    /// Marshals a parse reply: tag zero is success, carrying a
    /// personality whose name is read; any other tag is failure,
    /// carrying an error list whose messages are read. A reply of
    /// the wrong shape is an FFI error.
    pub fn convert_parse_result(&self, v: &FfiValue) -> (r: Result<ParseResult, BridgeError>)
        ensures
            (v matches FfiValue::Block(tag, fields) && tag == 0 ==> (match success_name_of(*v) {
                Some(name) => {
                    &&& r matches Ok(p)
                    &&& p.success == true
                    &&& (p.personality matches Some(pd) && pd.name@ == name && pd.traits@.len()
                        == 0 && pd.knowledge@.len() == 0 && pd.behaviors@.len() == 0
                        && pd.evolution@.len() == 0)
                    &&& p.errors@.len() == 0
                    &&& p.warnings@.len() == 0
                },
                None => r matches Err(BridgeError::FfiError(m)) && m@
                    == "Failed to extract personality name"@,
            })),
            (v matches FfiValue::Block(tag, fields) && tag != 0 ==> (match failure_messages_of(
                *v,
            ) {
                Some(ms) => {
                    &&& r matches Ok(p)
                    &&& p.success == false
                    &&& p.personality is None
                    &&& p.warnings@.len() == 0
                    &&& parse_errors_match(p.errors@, ms)
                },
                None => r is Err,
            })),
            (v is Str ==> r is Err),
    {
        match v {
            FfiValue::Block(tag, fields) => {
                if *tag == 0 {
                    if fields.len() >= 1 {
                        match self.convert_personality(&fields[0]) {
                            Ok(personality) => Ok(
                                ParseResult {
                                    success: true,
                                    personality: Some(personality),
                                    errors: Vec::new(),
                                    warnings: Vec::new(),
                                },
                            ),
                            Err(e) => Err(e),
                        }
                    } else {
                        Err(BridgeError::FfiError("Failed to extract personality name".to_owned()))
                    }
                } else {
                    if fields.len() >= 1 {
                        match self.convert_errors(&fields[0]) {
                            Ok(parse_errors) => Ok(
                                ParseResult {
                                    success: false,
                                    personality: None,
                                    errors: parse_errors,
                                    warnings: Vec::new(),
                                },
                            ),
                            Err(e) => Err(e),
                        }
                    } else {
                        Err(BridgeError::FfiError("Failed to extract error message".to_owned()))
                    }
                }
            },
            FfiValue::Str(_) => Err(
                BridgeError::FfiError("Failed to extract error message".to_owned()),
            ),
        }
    }

    /// Marshals a personality record: only its name is read; the
    /// remaining fields are left empty.
    pub fn convert_personality(&self, personality: &FfiValue) -> (r: Result<
        PersonalityData,
        BridgeError,
    >)
        ensures
            (match personality_name_of(*personality) {
                Some(name) => r matches Ok(p) && p.name@ == name && p.traits@.len() == 0
                    && p.knowledge@.len() == 0 && p.behaviors@.len() == 0 && p.evolution@.len()
                    == 0,
                None => r matches Err(BridgeError::FfiError(m)) && m@
                    == "Failed to extract personality name"@,
            }),
    {
        match personality {
            FfiValue::Block(_tag, pfields) => {
                if pfields.len() >= 1 {
                    match &pfields[0] {
                        FfiValue::Str(name) => Ok(
                            PersonalityData {
                                name: name.clone(),
                                traits: Vec::new(),
                                knowledge: Vec::new(),
                                behaviors: Vec::new(),
                                evolution: Vec::new(),
                            },
                        ),
                        _ => Err(
                            BridgeError::FfiError("Failed to extract personality name".to_owned()),
                        ),
                    }
                } else {
                    Err(BridgeError::FfiError("Failed to extract personality name".to_owned()))
                }
            },
            FfiValue::Str(_) => Err(
                BridgeError::FfiError("Failed to extract personality name".to_owned()),
            ),
        }
    }

    /// Marshals an error list, reading each error record's message;
    /// the source records carry location fields that are not read
    /// here, so line and column default to 1 and the filename to a
    /// placeholder.
    pub fn convert_errors(&self, errors: &FfiValue) -> (r: Result<Vec<ParseError>, BridgeError>)
        ensures
            (match error_messages_of(*errors) {
                Some(ms) => r matches Ok(es) && parse_errors_match(es@, ms),
                None => r matches Err(BridgeError::FfiError(m)) && m@
                    == "Failed to extract error message"@,
            }),
        decreases *errors,
    {
        match errors {
            FfiValue::Block(tag, fields) => {
                if *tag == 0 {
                    Ok(Vec::new())
                } else if fields.len() >= 2 {
                    let message = match &fields[0] {
                        FfiValue::Block(_et, efields) => {
                            if efields.len() >= 1 {
                                match &efields[0] {
                                    FfiValue::Str(m) => m.clone(),
                                    _ => {
                                        return Err(
                                            BridgeError::FfiError(
                                                "Failed to extract error message".to_owned(),
                                            ),
                                        );
                                    },
                                }
                            } else {
                                return Err(
                                    BridgeError::FfiError(
                                        "Failed to extract error message".to_owned(),
                                    ),
                                );
                            }
                        },
                        FfiValue::Str(_) => {
                            return Err(
                                BridgeError::FfiError("Failed to extract error message".to_owned()),
                            );
                        },
                    };
                    match self.convert_errors(&fields[1]) {
                        Ok(mut rest) => {
                            let head = ParseError {
                                message,
                                line: 1,
                                column: 1,
                                filename: "<unknown>".to_owned(),
                            };
                            rest.insert(0, head);
                            Ok(rest)
                        },
                        Err(e) => Err(e),
                    }
                } else {
                    Err(BridgeError::FfiError("Failed to extract error message".to_owned()))
                }
            },
            FfiValue::Str(_) => Err(
                BridgeError::FfiError("Failed to extract error message".to_owned()),
            ),
        }
    }

    /// Marshals a compile reply: tag zero is success carrying the
    /// output string; any other block is a plain failure.
    pub fn convert_compile_result(&self, v: &FfiValue) -> (r: Result<CompileResult, BridgeError>)
        ensures
            (v matches FfiValue::Block(tag, fields) && tag == 0 ==> (match compile_output_of(*v) {
                Some(out) => r matches Ok(c) && c.success == true && (c.output matches Some(o)
                    && o@ == out) && c.errors@.len() == 0,
                None => r matches Err(BridgeError::FfiError(m)) && m@
                    == "Failed to extract compilation output"@,
            })),
            (v matches FfiValue::Block(tag, fields) && tag != 0 ==> (r matches Ok(c) && c.success
                == false && c.output is None && c.errors@.len() == 1 && c.errors@[0]@
                == "Compilation failed"@)),
            (v is Str ==> r is Err),
    {
        match v {
            FfiValue::Block(tag, fields) => {
                if *tag == 0 {
                    if fields.len() >= 1 {
                        match &fields[0] {
                            FfiValue::Str(out) => Ok(
                                CompileResult {
                                    success: true,
                                    output: Some(out.clone()),
                                    errors: Vec::new(),
                                },
                            ),
                            _ => Err(
                                BridgeError::FfiError(
                                    "Failed to extract compilation output".to_owned(),
                                ),
                            ),
                        }
                    } else {
                        Err(BridgeError::FfiError("Failed to extract compilation output".to_owned()))
                    }
                } else {
                    let mut errs: Vec<String> = Vec::new();
                    errs.push("Compilation failed".to_owned());
                    Ok(CompileResult { success: false, output: None, errors: errs })
                }
            },
            FfiValue::Str(_) => Err(
                BridgeError::FfiError("Failed to extract compilation output".to_owned()),
            ),
        }
    }

    /// The local validator: no foreign call. Warns once if the name
    /// is empty, and once per trait whose strength lies outside the
    /// valid range, naming the trait and its value. Fails iff the
    /// runtime is not initialized.
    pub fn validate_personality(&self, personality: &PersonalityData) -> (r: Result<
        Vec<String>,
        BridgeError,
    >)
        ensures
            (!self.spec_initialized() ==> r matches Err(BridgeError::RuntimeNotInitialized)),
            (self.spec_initialized() ==> (r matches Ok(ws) && view_string_seq(ws@)
                == expected_warnings(personality.name@, view_traits(personality.traits@)))),
    {
        if !self.is_initialized() {
            return Err(BridgeError::RuntimeNotInitialized);
        }
        let mut warnings: Vec<String> = Vec::new();
        if personality.name.as_str().is_empty() {
            warnings.push("Personality name is empty".to_owned());
        }
        let ghost base = view_string_seq(warnings@);
        let mut i: usize = 0;
        while i < personality.traits.len()
            invariant
                i <= personality.traits@.len(),
                base == if personality.name@.len() == 0 {
                    seq!["Personality name is empty"@]
                } else {
                    Seq::<Seq<char>>::empty()
                },
                view_string_seq(warnings@) == base + invalid_trait_warnings(
                    view_traits(personality.traits@.take(i as int)),
                ),
            decreases personality.traits@.len() - i,
        {
            let t = &personality.traits[i];
            proof {
                assert(view_traits(personality.traits@.take(i + 1)).drop_last() =~= view_traits(
                    personality.traits@.take(i as int),
                ));
                assert(view_traits(personality.traits@.take(i + 1)).last()
                    == personality.traits@[i as int]@);
            }
            if t.strength_milli < 0 || t.strength_milli > 1000 {
                let mut w = "Trait ".to_owned();
                w.append(t.name.as_str());
                w.append(" has invalid strength: ");
                let value = milli_to_string(t.strength_milli);
                w.append(value.as_str());
                proof {
                    assert(w@ == trait_warning(personality.traits@[i as int]@));
                    assert(!strength_in_range(personality.traits@[i as int]@.strength_milli));
                    assert(invalid_trait_warnings(view_traits(personality.traits@.take(i + 1)))
                        == invalid_trait_warnings(view_traits(personality.traits@.take(i as int)))
                        + seq![trait_warning(personality.traits@[i as int]@)]);
                }
                warnings.push(w);
                proof {
                    let tw = trait_warning(personality.traits@[i as int]@);
                    let prefix = base + invalid_trait_warnings(
                        view_traits(personality.traits@.take(i as int)),
                    );
                    assert(view_string_seq(warnings@) =~= prefix.push(tw));
                    assert(base + invalid_trait_warnings(
                        view_traits(personality.traits@.take(i + 1)),
                    ) =~= prefix.push(tw));
                    assert(view_string_seq(warnings@) == base + invalid_trait_warnings(
                        view_traits(personality.traits@.take(i + 1)),
                    ));
                }
            } else {
                proof {
                    assert(view_string_seq(warnings@) =~= base + invalid_trait_warnings(
                        view_traits(personality.traits@.take(i + 1)),
                    ));
                }
            }
            i = i + 1;
        }
        proof {
            assert(personality.traits@.take(personality.traits@.len() as int)
                =~= personality.traits@);
        }
        Ok(warnings)
    }

    /// The parser's version string. Fails iff the runtime is not
    /// initialized.
    pub fn get_parser_version(&self) -> (r: Result<String, BridgeError>)
        ensures
            (!self.spec_initialized() ==> r matches Err(BridgeError::RuntimeNotInitialized)),
            (self.spec_initialized() ==> (r matches Ok(v) && v@ == "0.1.0"@)),
    {
        if !self.is_initialized() {
            return Err(BridgeError::RuntimeNotInitialized);
        }
        Ok("0.1.0".to_owned())
    }
}

/// A successful parse reply's personality name: the name of the
/// personality record in the reply's first field.
pub open spec fn success_name_of(v: FfiValue) -> Option<Seq<char>> {
    match v {
        FfiValue::Block(_t, fields) => if fields@.len() >= 1 {
            personality_name_of(fields@[0])
        } else {
            None
        },
        _ => None,
    }
}

/// A parse failure's messages: the error list of the reply's first
/// field, read as `error_messages_of` says.
pub open spec fn failure_messages_of(v: FfiValue) -> Option<Seq<Seq<char>>> {
    match v {
        FfiValue::Block(_t, fields) => if fields@.len() >= 1 {
            error_messages_of(fields@[0])
        } else {
            None
        },
        _ => None,
    }
}

/// The marshaled errors carry the given messages in order, each at
/// line 1, column 1, with a placeholder filename.
pub open spec fn parse_errors_match(es: Seq<ParseError>, ms: Seq<Seq<char>>) -> bool {
    &&& es.len() == ms.len()
    &&& forall|i: int|
        0 <= i < es.len() ==> (#[trigger] es[i]).message@ == ms[i] && es[i].line == 1
            && es[i].column == 1 && es[i].filename@ == "<unknown>"@
}

/// Renders a strength in thousandths.
fn milli_to_string(m: i64) -> (s: String)
    ensures
        s@ == milli_str(m as int),
{
    let mut s = String::new();
    if m < 0 {
        s.append("-");
    }
    let a: u64 = if m < 0 {
        (-(m as i128)) as u64
    } else {
        m as u64
    };
    let ip = u64_to_string(a / 1000);
    s.append(ip.as_str());
    let f: u64 = a % 1000;
    if f != 0 {
        s.append(".");
        let d1 = digit_str(f / 100);
        s.append(d1.as_str());
        if f % 100 != 0 {
            let d2 = digit_str((f / 10) % 10);
            s.append(d2.as_str());
            if f % 10 != 0 {
                let d3 = digit_str(f % 10);
                s.append(d3.as_str());
            }
        }
    }
    proof {
        assert(s@ =~= milli_str(m as int));
    }
    s
}

/// Marks the runtime initialized on the given bridge handle.
pub fn initialize_ocaml_bridge(bridge: &mut OcamlBridge) -> (r: Result<(), BridgeError>)
    ensures
        final(bridge).spec_initialized(),
        r is Ok,
{
    bridge.initialize()
}

/// Prepares a parse call on the given bridge handle.
pub fn parse_dsl(bridge: &OcamlBridge, content: &str, filename: Option<&str>) -> (r: Result<
    ParseCall,
    BridgeError,
>)
    ensures
        (!bridge.spec_initialized() ==> r matches Err(BridgeError::RuntimeNotInitialized)),
        (bridge.spec_initialized() ==> (r matches Ok(c) && c.content@ == content@ && c.filename@
            == match filename {
            Some(f) => f@,
            None => "<string>"@,
        })),
{
    bridge.parse_personality(content, filename)
}

/// Prepares a compile call on the given bridge handle.
pub fn compile_dsl(bridge: &OcamlBridge, request: &CompileRequest) -> (r: Result<
    CompileCall,
    BridgeError,
>)
    ensures
        (!bridge.spec_initialized() ==> r matches Err(BridgeError::RuntimeNotInitialized)),
        (bridge.spec_initialized() ==> (r matches Ok(c) && c.target@ == target_name(
            request.target,
        ))),
{
    bridge.compile_personality(request)
}

} // verus!
