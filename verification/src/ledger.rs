//! The static ledger: the capabilities a component imports, with the schema
//! of every imported function.
//!
//! Interfaces are checked to be wire-safe when the ledger is built, not when
//! a call is made: a function whose parameters or results hold a resource, a
//! future, a stream or an error context cannot cross a network boundary,
//! and the component is refused. WASI imports are system components, not
//! RPC targets, and are left out.
//!
//! The component's import list is described by plain values
//! ([`ComponentType`], [`ComponentItem`], [`FuncType`], [`WireType`]).

use vstd::prelude::*;
use vstd::string::{StringExecFns, StrSliceExecFns};
use crate::name_map::NameMap;

verus! {

// =============================================================================
// Types of the component model
// =============================================================================

/// The type of a value in a component interface.
pub enum WireType {
    Bool,
    S8,
    U8,
    S16,
    U16,
    S32,
    U32,
    S64,
    U64,
    Float32,
    Float64,
    Char,
    String,
    /// A list of values of one type.
    List(Box<WireType>),
    /// Named fields, in order.
    Record(Vec<(String, WireType)>),
    /// Unnamed fields, in order.
    Tuple(Vec<WireType>),
    /// Named cases, each with an optional payload.
    Variant(Vec<(String, Option<WireType>)>),
    /// Named cases without payload.
    Enum(Vec<String>),
    /// An optional value.
    Option(Box<WireType>),
    /// A success or an error, each with an optional payload.
    Result { ok: Option<Box<WireType>>, err: Option<Box<WireType>> },
    /// A set of named flags.
    Flags(Vec<String>),
    /// An owned resource handle.
    Own,
    /// A borrowed resource handle.
    Borrow,
    /// A future.
    Future,
    /// A stream.
    Stream,
    /// An error context.
    ErrorContext,
}

/// The type of a component function: named parameters and results.
pub struct FuncType {
    pub params: Vec<(String, WireType)>,
    pub results: Vec<WireType>,
}

/// The type of a component instance: its named exports.
pub struct InstanceType {
    pub exports: Vec<(String, ComponentItem)>,
}

/// An item that a component imports or an instance exports.
pub enum ComponentItem {
    ComponentFunc(FuncType),
    ComponentInstance(InstanceType),
    /// Any other item (a core module, a type, a resource, ...).
    Other,
}

/// The type of a component: its named imports.
pub struct ComponentType {
    pub imports: Vec<(String, ComponentItem)>,
}

// =============================================================================
// Errors
// =============================================================================

/// Ledger errors.
#[derive(Debug, Clone)]
pub enum Error {
    /// Type contains resources which cannot cross network boundaries.
    ResourceNotWireSafe,
    /// Type contains futures which cannot cross network boundaries.
    FutureNotWireSafe,
    /// Type contains streams which cannot cross network boundaries.
    StreamNotWireSafe,
    /// Type contains error contexts which cannot cross network boundaries.
    ErrorContextNotWireSafe,
    /// Parameter contains forbidden type.
    InvalidParameter { import_name: String, details: String },
    /// Result contains forbidden type.
    InvalidResult { import_name: String, details: String },
}

/// Outcome of a ledger operation.
pub type Result<T> = core::result::Result<T, Error>;

impl Error {
    /// The human-readable description of an error.
    pub open spec fn spec_message(&self) -> Seq<char> {
        match self {
            Error::ResourceNotWireSafe => "Resources cannot cross network boundaries"@,
            Error::FutureNotWireSafe => "Futures cannot cross network boundaries"@,
            Error::StreamNotWireSafe => "Streams cannot cross network boundaries"@,
            Error::ErrorContextNotWireSafe => "Error Contexts cannot cross network boundaries"@,
            Error::InvalidParameter { import_name, details } =>
                "Import '"@ + import_name@ + "' is not wire-safe: parameter contains forbidden type: "@
                    + details@,
            Error::InvalidResult { import_name, details } =>
                "Import '"@ + import_name@ + "' is not wire-safe: result contains forbidden type: "@
                    + details@,
        }
    }

    /// The human-readable description of this error.
    pub fn message(&self) -> (s: String)
        ensures
            s@ == self.spec_message(),
    {
        match self {
            Error::ResourceNotWireSafe => String::from_str("Resources cannot cross network boundaries"),
            Error::FutureNotWireSafe => String::from_str("Futures cannot cross network boundaries"),
            Error::StreamNotWireSafe => String::from_str("Streams cannot cross network boundaries"),
            Error::ErrorContextNotWireSafe => String::from_str(
                "Error Contexts cannot cross network boundaries",
            ),
            Error::InvalidParameter { import_name, details } => String::from_str("Import '").concat(
                import_name.as_str(),
            ).concat("' is not wire-safe: parameter contains forbidden type: ").concat(
                details.as_str(),
            ),
            Error::InvalidResult { import_name, details } => String::from_str("Import '").concat(
                import_name.as_str(),
            ).concat("' is not wire-safe: result contains forbidden type: ").concat(
                details.as_str(),
            ),
        }
    }
}

// =============================================================================
// Wire safety
// =============================================================================

/// The first part of a type, in declaration order, that cannot cross a
/// network boundary, as the error that reports it; `None` when the type is
/// pure data.
pub open spec fn violation(t: WireType) -> Option<Error>
    decreases t,
{
    match t {
        WireType::Own => Some(Error::ResourceNotWireSafe),
        WireType::Borrow => Some(Error::ResourceNotWireSafe),
        WireType::Future => Some(Error::FutureNotWireSafe),
        WireType::Stream => Some(Error::StreamNotWireSafe),
        WireType::ErrorContext => Some(Error::ErrorContextNotWireSafe),
        WireType::List(e) => violation(*e),
        WireType::Option(e) => violation(*e),
        WireType::Result { ok, err } => {
            let first = match ok {
                Some(o) => violation(*o),
                None => None,
            };
            if first is Some {
                first
            } else {
                match err {
                    Some(e) => violation(*e),
                    None => None,
                }
            }
        },
        WireType::Tuple(items) => violation_in(items@),
        WireType::Record(fields) => violation_in_fields(fields@),
        WireType::Variant(cases) => violation_in_cases(cases@),
        _ => None,
    }
}

/// The first violation among types, in order.
pub open spec fn violation_in(ts: Seq<WireType>) -> Option<Error>
    decreases ts,
{
    if ts.len() == 0 {
        None
    } else {
        let before = violation_in(ts.drop_last());
        if before is Some {
            before
        } else {
            violation(ts.last())
        }
    }
}

/// The first violation among named fields, in order.
pub open spec fn violation_in_fields(fs: Seq<(String, WireType)>) -> Option<Error>
    decreases fs,
{
    if fs.len() == 0 {
        None
    } else {
        let before = violation_in_fields(fs.drop_last());
        if before is Some {
            before
        } else {
            violation(fs.last().1)
        }
    }
}

/// The first violation among the payloads of variant cases, in order.
pub open spec fn violation_in_cases(cs: Seq<(String, Option<WireType>)>) -> Option<Error>
    decreases cs,
{
    if cs.len() == 0 {
        None
    } else {
        let before = violation_in_cases(cs.drop_last());
        if before is Some {
            before
        } else {
            match cs.last().1 {
                Some(p) => violation(p),
                None => None,
            }
        }
    }
}

proof fn lemma_violation_in_prefix(ts: Seq<WireType>, k: int)
    requires
        0 <= k <= ts.len(),
        violation_in(ts.take(k)) is Some,
    ensures
        violation_in(ts) == violation_in(ts.take(k)),
    decreases ts.len() - k,
{
    if k < ts.len() {
        assert(ts.take(k + 1).drop_last() =~= ts.take(k));
        lemma_violation_in_prefix(ts, k + 1);
    } else {
        assert(ts.take(k) =~= ts);
    }
}

proof fn lemma_violation_in_fields_prefix(fs: Seq<(String, WireType)>, k: int)
    requires
        0 <= k <= fs.len(),
        violation_in_fields(fs.take(k)) is Some,
    ensures
        violation_in_fields(fs) == violation_in_fields(fs.take(k)),
    decreases fs.len() - k,
{
    if k < fs.len() {
        assert(fs.take(k + 1).drop_last() =~= fs.take(k));
        lemma_violation_in_fields_prefix(fs, k + 1);
    } else {
        assert(fs.take(k) =~= fs);
    }
}

proof fn lemma_violation_in_cases_prefix(cs: Seq<(String, Option<WireType>)>, k: int)
    requires
        0 <= k <= cs.len(),
        violation_in_cases(cs.take(k)) is Some,
    ensures
        violation_in_cases(cs) == violation_in_cases(cs.take(k)),
    decreases cs.len() - k,
{
    if k < cs.len() {
        assert(cs.take(k + 1).drop_last() =~= cs.take(k));
        lemma_violation_in_cases_prefix(cs, k + 1);
    } else {
        assert(cs.take(k) =~= cs);
    }
}

/// Checks that a type is pure data, part by part in declaration order,
/// and reports the first part that is not.
#[verifier::loop_isolation(false)]
fn check(ty: &WireType) -> (r: Result<()>)
    ensures
        r == (match violation(*ty) {
            None => Ok(()),
            Some(e) => Err(e),
        }),
    decreases ty,
{
    match ty {
        WireType::Own => Err(Error::ResourceNotWireSafe),
        WireType::Borrow => Err(Error::ResourceNotWireSafe),
        WireType::Future => Err(Error::FutureNotWireSafe),
        WireType::Stream => Err(Error::StreamNotWireSafe),
        WireType::ErrorContext => Err(Error::ErrorContextNotWireSafe),
        WireType::List(e) => check(e),
        WireType::Option(e) => check(e),
        WireType::Result { ok, err } => {
            match ok {
                Some(o) => {
                    check(o)?;
                },
                None => {},
            }
            match err {
                Some(e) => check(e),
                None => Ok(()),
            }
        },
        WireType::Tuple(items) => {
            let mut i: usize = 0;
            while i < items.len()
                invariant
                    i <= items@.len(),
                    violation_in(items@.take(i as int)) is None,
                decreases items@.len() - i,
            {
                proof {
                    assert(items@.take(i + 1).drop_last() =~= items@.take(i as int));
                }
                let r = check(&items[i]);
                if r.is_err() {
                    proof {
                        lemma_violation_in_prefix(items@, i + 1);
                    }
                    return r;
                }
                i = i + 1;
            }
            proof {
                assert(items@.take(i as int) =~= items@);
            }
            Ok(())
        },
        WireType::Record(fields) => {
            let mut i: usize = 0;
            while i < fields.len()
                invariant
                    i <= fields@.len(),
                    violation_in_fields(fields@.take(i as int)) is None,
                decreases fields@.len() - i,
            {
                proof {
                    assert(fields@.take(i + 1).drop_last() =~= fields@.take(i as int));
                }
                let r = check(&fields[i].1);
                if r.is_err() {
                    proof {
                        lemma_violation_in_fields_prefix(fields@, i + 1);
                    }
                    return r;
                }
                i = i + 1;
            }
            proof {
                assert(fields@.take(i as int) =~= fields@);
            }
            Ok(())
        },
        WireType::Variant(cases) => {
            let mut i: usize = 0;
            while i < cases.len()
                invariant
                    i <= cases@.len(),
                    violation_in_cases(cases@.take(i as int)) is None,
                decreases cases@.len() - i,
            {
                proof {
                    assert(cases@.take(i + 1).drop_last() =~= cases@.take(i as int));
                }
                match &cases[i].1 {
                    Some(p) => {
                        let r = check(p);
                        if r.is_err() {
                            proof {
                                lemma_violation_in_cases_prefix(cases@, i + 1);
                            }
                            return r;
                        }
                    },
                    None => {},
                }
                i = i + 1;
            }
            proof {
                assert(cases@.take(i as int) =~= cases@);
            }
            Ok(())
        },
        _ => Ok(()),
    }
}

/// Validates that a type is pure data and serializable: it holds no
/// resource, future, stream or error context at any depth. The type is
/// handed back when it is; otherwise the first forbidden part found, in
/// declaration order, is reported.
pub fn check_wire_safe(ty: WireType) -> (r: Result<WireType>)
    ensures
        r == (match violation(ty) {
            None => Ok(ty),
            Some(e) => Err(e),
        }),
{
    match check(&ty) {
        Ok(()) => Ok(ty),
        Err(e) => Err(e),
    }
}


// =============================================================================
// Function signatures
// =============================================================================

/// The types of a function's parameters, in order.
pub open spec fn param_types(ps: Seq<(String, WireType)>) -> Seq<WireType> {
    ps.map_values(|p: (String, WireType)| p.1)
}

/// The signature a function type stands for: its parameter types and its
/// result types.
pub open spec fn signature_of(f: FuncType) -> (Seq<WireType>, Seq<WireType>) {
    (param_types(f.params@), f.results@)
}

/// The first violation in a function's signature: whether it lies in a
/// parameter (`true`) or in a result (`false`), and what it is. Parameters
/// are checked before results.
pub open spec fn signature_fault(f: FuncType) -> Option<(bool, Error)> {
    match violation_in_fields(f.params@) {
        Some(e) => Some((true, e)),
        None => match violation_in(f.results@) {
            Some(e) => Some((false, e)),
            None => None,
        },
    }
}

/// `e` is the error that reports `fault` in the import named `name`: it
/// names the import and, as details, describes the forbidden type.
pub open spec fn reports(e: Error, name: Seq<char>, fault: (bool, Error)) -> bool {
    if fault.0 {
        e matches Error::InvalidParameter { import_name, details } && import_name@ == name
            && details@ == fault.1.spec_message()
    } else {
        e matches Error::InvalidResult { import_name, details } && import_name@ == name
            && details@ == fault.1.spec_message()
    }
}

/// The type signature of a specific function.
pub struct FunctionSignature {
    pub params: Vec<WireType>,
    pub results: Vec<WireType>,
}

impl View for FunctionSignature {
    type V = (Seq<WireType>, Seq<WireType>);

    open spec fn view(&self) -> (Seq<WireType>, Seq<WireType>) {
        (self.params@, self.results@)
    }
}

/// Checks every type of a list, in order, and reports the first violation.
fn check_all(ts: &Vec<WireType>) -> (r: Result<()>)
    ensures
        r == (match violation_in(ts@) {
            None => Ok(()),
            Some(e) => Err(e),
        }),
{
    let mut i: usize = 0;
    while i < ts.len()
        invariant
            i <= ts@.len(),
            violation_in(ts@.take(i as int)) is None,
        decreases ts@.len() - i,
    {
        proof {
            assert(ts@.take(i + 1).drop_last() =~= ts@.take(i as int));
        }
        let r = check(&ts[i]);
        if r.is_err() {
            proof {
                lemma_violation_in_prefix(ts@, i + 1);
            }
            return r;
        }
        i = i + 1;
    }
    proof {
        assert(ts@.take(i as int) =~= ts@);
    }
    Ok(())
}

impl FunctionSignature {
    /// Extracts and validates the signature of a function type: all its
    /// parameter and result types must be wire-safe. The first forbidden
    /// type (parameters first) is reported with the import's name.
    pub fn from_func_ty(func_ty: FuncType, import_name: &str) -> (r: Result<FunctionSignature>)
        ensures
            match signature_fault(func_ty) {
                None => r matches Ok(sig) && sig@ == signature_of(func_ty),
                Some(fault) => r matches Err(e) && reports(e, import_name@, fault),
            },
    {
        let ghost ps = func_ty.params@;
        let FuncType { params, results } = func_ty;
        let mut params = params;
        let mut types: Vec<WireType> = Vec::new();
        let ghost mut i: int = 0;
        while params.len() > 0
            invariant
                ps == func_ty.params@,
                0 <= i <= ps.len(),
                ps.len() == params@.len() + i,
                params@ == ps.skip(i as int),
                types@ == param_types(ps.take(i as int)),
                violation_in_fields(ps.take(i as int)) is None,
            decreases params@.len(),
        {
            let ghost before = params@;
            let (_name, ty) = params.remove(0);
            proof {
                assert(ps.take(i + 1).drop_last() =~= ps.take(i as int));
                assert(ps[i as int] == before[0]);
                assert(params@ =~= ps.skip(i + 1));
            }
            match check_wire_safe(ty) {
                Ok(t) => {
                    types.push(t);
                    proof {
                        assert(types@ =~= param_types(ps.take(i + 1)));
                    }
                },
                Err(e) => {
                    proof {
                        assert(ps.take(i + 1).last() == ps[i as int]);
                        assert(violation_in_fields(ps.take(i + 1)) == Some(e));
                        lemma_violation_in_fields_prefix(ps, i + 1);
                        assert(signature_fault(func_ty) == Some((true, e)));
                    }
                    let details = e.message();
                    return Err(Error::InvalidParameter { import_name: String::from_str(import_name), details });
                },
            }
            proof {
                i = i + 1;
            }
        }
        proof {
            assert(ps.take(i as int) =~= ps);
        }
        match check_all(&results) {
            Ok(()) => Ok(FunctionSignature { params: types, results }),
            Err(e) => {
                let details = e.message();
                Err(Error::InvalidResult { import_name: String::from_str(import_name), details })
            },
        }
    }
}

// =============================================================================
// Interface schemas
// =============================================================================

/// The name under which a function of an interface is reported:
/// `interface#function`.
pub open spec fn import_name_of(iface: Seq<char>, func: Seq<char>) -> Seq<char> {
    iface + "#"@ + func
}

/// The first function export, in order, whose signature is not wire-safe:
/// its import name and its fault.
pub open spec fn exports_fault(iface: Seq<char>, ex: Seq<(String, ComponentItem)>) -> Option<(Seq<char>, (bool, Error))>
    decreases ex.len(),
{
    if ex.len() == 0 {
        None
    } else {
        let before = exports_fault(iface, ex.drop_last());
        if before is Some {
            before
        } else {
            match ex.last().1 {
                ComponentItem::ComponentFunc(f) => match signature_fault(f) {
                    Some(fault) => Some((import_name_of(iface, ex.last().0@), fault)),
                    None => None,
                },
                _ => None,
            }
        }
    }
}

/// The signatures of the function exports, by name; other exports are
/// left out.
pub open spec fn exports_map(ex: Seq<(String, ComponentItem)>) -> Map<Seq<char>, (Seq<WireType>, Seq<WireType>)>
    decreases ex.len(),
{
    if ex.len() == 0 {
        Map::empty()
    } else {
        let m = exports_map(ex.drop_last());
        match ex.last().1 {
            ComponentItem::ComponentFunc(f) => m.insert(ex.last().0@, signature_of(f)),
            _ => m,
        }
    }
}

proof fn lemma_exports_fault_prefix(iface: Seq<char>, ex: Seq<(String, ComponentItem)>, k: int)
    requires
        0 <= k <= ex.len(),
        exports_fault(iface, ex.take(k)) is Some,
    ensures
        exports_fault(iface, ex) == exports_fault(iface, ex.take(k)),
    decreases ex.len() - k,
{
    if k < ex.len() {
        assert(ex.take(k + 1).drop_last() =~= ex.take(k));
        lemma_exports_fault_prefix(iface, ex, k + 1);
    } else {
        assert(ex.take(k) =~= ex);
    }
}

/// The schema for a named interface: the signature of each function.
pub struct InterfaceSchema {
    funcs: NameMap<FunctionSignature>,
}

impl View for InterfaceSchema {
    type V = Map<Seq<char>, (Seq<WireType>, Seq<WireType>)>;

    closed spec fn view(&self) -> Map<Seq<char>, (Seq<WireType>, Seq<WireType>)> {
        self.funcs@
    }
}

impl InterfaceSchema {
    #[verifier::type_invariant]
    spec fn inv(self) -> bool {
        self.funcs.wf()
    }

    /// The functions of the interface, by name.
    pub fn funcs(&self) -> (f: &NameMap<FunctionSignature>)
        ensures
            f.wf(),
            f@ == self@,
    {
        proof {
            use_type_invariant(self);
        }
        &self.funcs
    }

    /// Extracts all exported functions from an instance type, validating
    /// that every signature is wire-safe. A function `f` of interface `i`
    /// is reported as `i#f`.
    pub fn from_inst_ty(name: &str, inst_ty: InstanceType) -> (r: Result<InterfaceSchema>)
        ensures
            match exports_fault(name@, inst_ty.exports@) {
                None => r matches Ok(s) && s@ == exports_map(inst_ty.exports@),
                Some((iname, fault)) => r matches Err(e) && reports(e, iname, fault),
            },
    {
        let ghost ex = inst_ty.exports@;
        let InstanceType { exports } = inst_ty;
        let mut exports = exports;
        let mut funcs: NameMap<FunctionSignature> = NameMap::new();
        let ghost mut i: int = 0;
        while exports.len() > 0
            invariant
                ex == inst_ty.exports@,
                0 <= i <= ex.len(),
                ex.len() == exports@.len() + i,
                exports@ == ex.skip(i as int),
                funcs.wf(),
                funcs@ == exports_map(ex.take(i as int)),
                exports_fault(name@, ex.take(i as int)) is None,
            decreases exports@.len(),
        {
            let ghost before = exports@;
            let (func_name, item) = exports.remove(0);
            proof {
                assert(ex.take(i + 1).drop_last() =~= ex.take(i as int));
                assert(ex[i as int] == before[0]);
                assert(exports@ =~= ex.skip(i + 1));
            }
            match item {
                ComponentItem::ComponentFunc(func_ty) => {
                    let import_name = String::from_str(name).concat("#").concat(func_name.as_str());
                    match FunctionSignature::from_func_ty(func_ty, import_name.as_str()) {
                        Ok(sig) => {
                            funcs.insert(func_name, sig);
                        },
                        Err(e) => {
                            proof {
                                assert(ex.take(i + 1).last() == ex[i as int]);
                                assert(exports_fault(name@, ex.take(i + 1)) is Some);
                                lemma_exports_fault_prefix(name@, ex, i + 1);
                            }
                            return Err(e);
                        },
                    }
                },
                _ => {},
            }
            proof {
                i = i + 1;
            }
        }
        proof {
            assert(ex.take(i as int) =~= ex);
        }
        Ok(InterfaceSchema { funcs })
    }
}

// =============================================================================
// Ledger
// =============================================================================

/// Whether an import name belongs to WASI (it starts with `wasi:`).
pub open spec fn is_wasi_name(n: Seq<char>) -> bool {
    n.len() >= 5 && n[0] == 'w' && n[1] == 'a' && n[2] == 's' && n[3] == 'i' && n[4] == ':'
}

/// Whether `name` starts with `wasi:`.
pub(crate) fn is_wasi(name: &str) -> (b: bool)
    ensures
        b == is_wasi_name(name@),
{
    if name.unicode_len() < 5 {
        return false;
    }
    name.get_char(0) == 'w' && name.get_char(1) == 'a' && name.get_char(2) == 's'
        && name.get_char(3) == 'i' && name.get_char(4) == ':'
}

/// The first instance import, in order, that is not WASI and exports a
/// function whose signature is not wire-safe: that function's import name
/// and its fault.
pub open spec fn imports_fault(im: Seq<(String, ComponentItem)>) -> Option<(Seq<char>, (bool, Error))>
    decreases im.len(),
{
    if im.len() == 0 {
        None
    } else {
        let before = imports_fault(im.drop_last());
        if before is Some {
            before
        } else {
            match im.last().1 {
                ComponentItem::ComponentInstance(inst) => if is_wasi_name(im.last().0@) {
                    None
                } else {
                    exports_fault(im.last().0@, inst.exports@)
                },
                _ => None,
            }
        }
    }
}

/// The schemas of the instance imports, by name: WASI imports, imports
/// that export no function, and imports that are not instances are left
/// out.
pub open spec fn imports_map(im: Seq<(String, ComponentItem)>) -> Map<Seq<char>, Map<Seq<char>, (Seq<WireType>, Seq<WireType>)>>
    decreases im.len(),
{
    if im.len() == 0 {
        Map::empty()
    } else {
        let m = imports_map(im.drop_last());
        match im.last().1 {
            ComponentItem::ComponentInstance(inst) => if is_wasi_name(im.last().0@) || exports_map(
                inst.exports@,
            ) == Map::<Seq<char>, (Seq<WireType>, Seq<WireType>)>::empty() {
                m
            } else {
                m.insert(im.last().0@, exports_map(inst.exports@))
            },
            _ => m,
        }
    }
}

proof fn lemma_imports_fault_prefix(im: Seq<(String, ComponentItem)>, k: int)
    requires
        0 <= k <= im.len(),
        imports_fault(im.take(k)) is Some,
    ensures
        imports_fault(im) == imports_fault(im.take(k)),
    decreases im.len() - k,
{
    if k < im.len() {
        assert(im.take(k + 1).drop_last() =~= im.take(k));
        lemma_imports_fault_prefix(im, k + 1);
    } else {
        assert(im.take(k) =~= im);
    }
}

/// A registry of all imported interfaces and functions for a component.
pub struct Ledger {
    interfaces: NameMap<InterfaceSchema>,
}

impl View for Ledger {
    type V = Map<Seq<char>, Map<Seq<char>, (Seq<WireType>, Seq<WireType>)>>;

    closed spec fn view(&self) -> Map<Seq<char>, Map<Seq<char>, (Seq<WireType>, Seq<WireType>)>> {
        self.interfaces@
    }
}

impl Ledger {
    #[verifier::type_invariant]
    spec fn inv(self) -> bool {
        self.interfaces.wf()
    }

    /// The imported interfaces, by name.
    pub fn interfaces(&self) -> (m: &NameMap<InterfaceSchema>)
        ensures
            m.wf(),
            m@ == self@,
    {
        proof {
            use_type_invariant(self);
        }
        &self.interfaces
    }

    /// Builds the ledger of a component's imports.
    ///
    /// Every instance import that is not WASI must be wire-safe: the first
    /// function (in import order, then export order) whose signature holds
    /// a resource, future, stream or error context makes the whole ledger
    /// fail. Interfaces that export no function are left out.
    pub fn from_component(component: ComponentType) -> (r: Result<Ledger>)
        ensures
            match imports_fault(component.imports@) {
                None => r matches Ok(l) && l@ == imports_map(component.imports@),
                Some((iname, fault)) => r matches Err(e) && reports(e, iname, fault),
            },
    {
        let ghost im = component.imports@;
        let ComponentType { imports } = component;
        let mut imports = imports;
        let mut interfaces: NameMap<InterfaceSchema> = NameMap::new();
        let ghost mut i: int = 0;
        while imports.len() > 0
            invariant
                im == component.imports@,
                0 <= i <= im.len(),
                im.len() == imports@.len() + i,
                imports@ == im.skip(i as int),
                interfaces.wf(),
                interfaces@ == imports_map(im.take(i as int)),
                imports_fault(im.take(i as int)) is None,
            decreases imports@.len(),
        {
            let ghost before = imports@;
            let (name, item) = imports.remove(0);
            proof {
                assert(im.take(i + 1).drop_last() =~= im.take(i as int));
                assert(im[i as int] == before[0]);
                assert(imports@ =~= im.skip(i + 1));
            }
            match item {
                ComponentItem::ComponentInstance(inst_ty) => {
                    if !is_wasi(name.as_str()) {
                        match InterfaceSchema::from_inst_ty(name.as_str(), inst_ty) {
                            Ok(interface) => {
                                if !interface.funcs().is_empty() {
                                    interfaces.insert(name, interface);
                                }
                            },
                            Err(e) => {
                                proof {
                                    assert(im.take(i + 1).last() == im[i as int]);
                                    assert(imports_fault(im.take(i + 1)) is Some);
                                    lemma_imports_fault_prefix(im, i + 1);
                                }
                                return Err(e);
                            },
                        }
                    }
                },
                _ => {},
            }
            proof {
                i = i + 1;
            }
        }
        proof {
            assert(im.take(i as int) =~= im);
        }
        Ok(Ledger { interfaces })
    }

    /// Looks up the signature for an interface method.
    pub fn get_interface_func(&self, interface: &str, method: &str) -> (r: Option<&FunctionSignature>)
        ensures
            r is Some <==> self@.contains_key(interface@) && self@[interface@].contains_key(method@),
            r matches Some(sig) ==> sig@ == self@[interface@][method@],
    {
        proof {
            use_type_invariant(self);
        }
        match self.interfaces.get(interface) {
            Some(schema) => schema.funcs().get(method),
            None => None,
        }
    }
}


// =============================================================================
// Laws
// =============================================================================

proof fn lemma_fields_safe_types_safe(ps: Seq<(String, WireType)>)
    ensures
        violation_in(param_types(ps)) == violation_in_fields(ps),
    decreases ps.len(),
{
    if ps.len() > 0 {
        lemma_fields_safe_types_safe(ps.drop_last());
        assert(param_types(ps).drop_last() =~= param_types(ps.drop_last()));
    }
}

proof fn lemma_exports_map_safe(iface: Seq<char>, ex: Seq<(String, ComponentItem)>)
    requires
        exports_fault(iface, ex) is None,
    ensures
        forall|f: Seq<char>| #[trigger] exports_map(ex).contains_key(f) ==> violation_in(exports_map(ex)[f].0) is None
            && violation_in(exports_map(ex)[f].1) is None,
    decreases ex.len(),
{
    if ex.len() > 0 {
        lemma_exports_map_safe(iface, ex.drop_last());
        match ex.last().1 {
            ComponentItem::ComponentFunc(fty) => {
                lemma_fields_safe_types_safe(fty.params@);
            },
            _ => {},
        }
    }
}

/// A ledger holds only wire-safe signatures: when a component's imports
/// have no forbidden type, every parameter and result type of every
/// function the ledger records is pure data.
pub proof fn law_ledger_is_wire_safe(im: Seq<(String, ComponentItem)>)
    requires
        imports_fault(im) is None,
    ensures
        forall|i: Seq<char>, f: Seq<char>|
            #[trigger] imports_map(im).contains_key(i) && #[trigger] imports_map(im)[i].contains_key(f)
                ==> violation_in(imports_map(im)[i][f].0) is None && violation_in(
                imports_map(im)[i][f].1,
            ) is None,
    decreases im.len(),
{
    if im.len() > 0 {
        law_ledger_is_wire_safe(im.drop_last());
        match im.last().1 {
            ComponentItem::ComponentInstance(inst) => {
                if !is_wasi_name(im.last().0@) {
                    lemma_exports_map_safe(im.last().0@, inst.exports@);
                }
            },
            _ => {},
        }
    }
}

/// A ledger records no WASI interface and no interface without functions.
pub proof fn law_ledger_skips_wasi_and_empty(im: Seq<(String, ComponentItem)>)
    ensures
        forall|i: Seq<char>| #[trigger] imports_map(im).contains_key(i) ==> !is_wasi_name(i)
            && imports_map(im)[i] != Map::<Seq<char>, (Seq<WireType>, Seq<WireType>)>::empty(),
    decreases im.len(),
{
    if im.len() > 0 {
        let p = im.drop_last();
        law_ledger_skips_wasi_and_empty(p);
        assert forall|i: Seq<char>| #[trigger] imports_map(im).contains_key(i) implies !is_wasi_name(i)
            && imports_map(im)[i] != Map::<Seq<char>, (Seq<WireType>, Seq<WireType>)>::empty() by {
            if i != im.last().0@ {
                assert(imports_map(p).contains_key(i));
            } else if !imports_map(p).contains_key(i) || imports_map(im)[i] != imports_map(p)[i] {
            } else {
                assert(imports_map(p).contains_key(i));
            }
        }
    }
}

proof fn lemma_func_export_kept(ex: Seq<(String, ComponentItem)>, j: int)
    requires
        0 <= j < ex.len(),
        ex[j].1 is ComponentFunc,
    ensures
        exports_map(ex).contains_key(ex[j].0@),
    decreases ex.len(),
{
    if j < ex.len() - 1 {
        lemma_func_export_kept(ex.drop_last(), j);
    }
}

/// Every function an interface exports is in its schema, under its name,
/// with its own signature; when a name is exported more than once, the last
/// export of it counts.
pub proof fn law_interface_keeps_functions(ex: Seq<(String, ComponentItem)>, j: int)
    requires
        0 <= j < ex.len(),
        forall|l: int| j < l < ex.len() ==> #[trigger] ex[l].0@ != ex[j].0@,
    ensures
        ex[j].1 matches ComponentItem::ComponentFunc(f) ==> exports_map(ex).contains_key(ex[j].0@)
            && exports_map(ex)[ex[j].0@] == signature_of(f),
    decreases ex.len(),
{
    if j < ex.len() - 1 {
        let p = ex.drop_last();
        assert forall|l: int| j < l < p.len() implies #[trigger] p[l].0@ != p[j].0@ by {
            assert(p[l] == ex[l]);
            assert(ex[l].0@ != ex[j].0@);
        }
        law_interface_keeps_functions(p, j);
        assert(ex[ex.len() - 1].0@ != ex[j].0@);
    }
}

/// Every instance import whose name is not WASI and that exports at least
/// one function is in the ledger, under its name, with the signatures of
/// its function exports; when a name is imported more than once, the last
/// import of it counts.
pub proof fn law_ledger_keeps_interfaces(im: Seq<(String, ComponentItem)>, k: int, j: int)
    requires
        0 <= k < im.len(),
        forall|l: int| k < l < im.len() ==> #[trigger] im[l].0@ != im[k].0@,
        !is_wasi_name(im[k].0@),
        im[k].1 matches ComponentItem::ComponentInstance(inst) && 0 <= j < inst.exports@.len()
            && inst.exports@[j].1 is ComponentFunc,
    ensures
        im[k].1 matches ComponentItem::ComponentInstance(inst) && imports_map(im).contains_key(im[k].0@)
            && imports_map(im)[im[k].0@] == exports_map(inst.exports@),
    decreases im.len(),
{
    if let ComponentItem::ComponentInstance(inst) = im[k].1 {
        lemma_func_export_kept(inst.exports@, j);
        if k < im.len() - 1 {
            let p = im.drop_last();
            assert forall|l: int| k < l < p.len() implies #[trigger] p[l].0@ != p[k].0@ by {
                assert(p[l] == im[l]);
                assert(im[l].0@ != im[k].0@);
            }
            law_ledger_keeps_interfaces(p, k, j);
            assert(im[im.len() - 1].0@ != im[k].0@);
        }
    }
}

proof fn lemma_violation_in_none(ts: Seq<WireType>)
    ensures
        violation_in(ts) is None <==> forall|i: int| 0 <= i < ts.len() ==> #[trigger] violation(ts[i]) is None,
    decreases ts.len(),
{
    if ts.len() > 0 {
        let p = ts.drop_last();
        lemma_violation_in_none(p);
        if violation_in(ts) is None {
            assert(violation_in(p) is None);
            assert forall|i: int| 0 <= i < ts.len() implies #[trigger] violation(ts[i]) is None by {
                if i < p.len() {
                    assert(p[i] == ts[i]);
                    assert(violation(p[i]) is None);
                }
            }
        } else if forall|i: int| 0 <= i < ts.len() ==> #[trigger] violation(ts[i]) is None {
            assert forall|i: int| 0 <= i < p.len() implies #[trigger] violation(p[i]) is None by {
                assert(p[i] == ts[i]);
                assert(violation(ts[i]) is None);
            }
            assert(violation(ts[ts.len() - 1]) is None);
            assert(false);
        }
    }
}

proof fn lemma_violation_in_fields_none(fs: Seq<(String, WireType)>)
    ensures
        violation_in_fields(fs) is None <==> forall|i: int| 0 <= i < fs.len() ==> #[trigger] violation(fs[i].1) is None,
    decreases fs.len(),
{
    if fs.len() > 0 {
        let p = fs.drop_last();
        lemma_violation_in_fields_none(p);
        if violation_in_fields(fs) is None {
            assert(violation_in_fields(p) is None);
            assert forall|i: int| 0 <= i < fs.len() implies #[trigger] violation(fs[i].1) is None by {
                if i < p.len() {
                    assert(p[i] == fs[i]);
                    assert(violation(p[i].1) is None);
                }
            }
        } else if forall|i: int| 0 <= i < fs.len() ==> #[trigger] violation(fs[i].1) is None {
            assert forall|i: int| 0 <= i < p.len() implies #[trigger] violation(p[i].1) is None by {
                assert(p[i] == fs[i]);
                assert(violation(fs[i].1) is None);
            }
            assert(violation(fs[fs.len() - 1].1) is None);
            assert(false);
        }
    }
}

/// The payload of a variant case is wire-safe (a case without payload is).
pub open spec fn case_safe(c: (String, Option<WireType>)) -> bool {
    match c.1 {
        Some(p) => violation(p) is None,
        None => true,
    }
}

proof fn lemma_violation_in_cases_none(cs: Seq<(String, Option<WireType>)>)
    ensures
        violation_in_cases(cs) is None <==> forall|i: int| 0 <= i < cs.len() ==> #[trigger] case_safe(cs[i]),
    decreases cs.len(),
{
    if cs.len() > 0 {
        let p = cs.drop_last();
        lemma_violation_in_cases_none(p);
        if violation_in_cases(cs) is None {
            assert(violation_in_cases(p) is None);
            assert forall|i: int| 0 <= i < cs.len() implies #[trigger] case_safe(cs[i]) by {
                if i < p.len() {
                    assert(p[i] == cs[i]);
                    assert(case_safe(p[i]));
                }
            }
        } else if forall|i: int| 0 <= i < cs.len() ==> #[trigger] case_safe(cs[i]) {
            assert forall|i: int| 0 <= i < p.len() implies #[trigger] case_safe(p[i]) by {
                assert(p[i] == cs[i]);
                assert(case_safe(cs[i]));
            }
            assert(case_safe(cs[cs.len() - 1]));
            assert(false);
        }
    }
}

/// Wire safety is deep: a list or option is wire-safe exactly when its
/// element is; a tuple, record or variant exactly when every element,
/// field or case payload is; a result exactly when its ok and error
/// payloads are. Resources, futures, streams and error contexts never are;
/// scalars, characters, strings, enums and flags always are.
pub proof fn law_wire_safety_is_deep(t: WireType)
    ensures
        match t {
            WireType::List(e) => violation(t) == violation(*e),
            WireType::Option(e) => violation(t) == violation(*e),
            WireType::Tuple(items) => violation(t) is None <==> forall|i: int|
                0 <= i < items@.len() ==> #[trigger] violation(items@[i]) is None,
            WireType::Record(fields) => violation(t) is None <==> forall|i: int|
                0 <= i < fields@.len() ==> #[trigger] violation(fields@[i].1) is None,
            WireType::Variant(cases) => violation(t) is None <==> forall|i: int|
                0 <= i < cases@.len() ==> #[trigger] case_safe(cases@[i]),
            WireType::Result { ok, err } => violation(t) is None <==> (match ok {
                Some(o) => violation(*o) is None,
                None => true,
            }) && (match err {
                Some(e) => violation(*e) is None,
                None => true,
            }),
            WireType::Own | WireType::Borrow | WireType::Future | WireType::Stream
            | WireType::ErrorContext => violation(t) is Some,
            _ => violation(t) is None,
        },
{
    match t {
        WireType::Tuple(items) => lemma_violation_in_none(items@),
        WireType::Record(fields) => lemma_violation_in_fields_none(fields@),
        WireType::Variant(cases) => lemma_violation_in_cases_none(cases@),
        _ => {},
    }
}

} // verus!
