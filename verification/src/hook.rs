use vstd::prelude::*;
use crate::text::str_equal;

verus! {

/// What a call does to a handle it is given.
#[derive(Debug, Clone, Copy, PartialEq, Eq)]
pub enum InputHandleOp {
    Use,
    Modify,
    Destroy,
}

/// The operation that a handle attribute's text names, if any.
pub open spec fn handle_op_of(s: Seq<char>) -> Option<InputHandleOp> {
    if s == "use"@ {
        Some(InputHandleOp::Use)
    } else if s == "modify"@ {
        Some(InputHandleOp::Modify)
    } else if s == "destroy"@ {
        Some(InputHandleOp::Destroy)
    } else {
        None
    }
}

impl InputHandleOp {
    /// The operation named by `s`: "use", "modify" or "destroy".
    pub fn parse(s: &str) -> (op: Option<Self>)
        ensures
            op == handle_op_of(s@),
    {
        if str_equal(s, "use") {
            Some(InputHandleOp::Use)
        } else if str_equal(s, "modify") {
            Some(InputHandleOp::Modify)
        } else if str_equal(s, "destroy") {
            Some(InputHandleOp::Destroy)
        } else {
            None
        }
    }
}

/// The type names that stand for handles to objects on the other side.
pub open spec fn is_handle_type_name(s: Seq<char>) -> bool {
    ||| s == "CUstream"@
    ||| s == "CUfunction"@
    ||| s == "cudaStream_t"@
    ||| s == "cudaEvent_t"@
    ||| s == "cudnnHandle_t"@
    ||| s == "cudnnActivationDescriptor_t"@
    ||| s == "cudnnConvolutionDescriptor_t"@
    ||| s == "cudnnFilterDescriptor_t"@
    ||| s == "cudnnTensorDescriptor_t"@
    ||| s == "cudnnBackendDescriptor_t"@
    ||| s == "cublasHandle_t"@
    ||| s == "cublasLtHandle_t"@
    ||| s == "cublasLtMatmulDesc_t"@
    ||| s == "cublasLtMatrixLayout_t"@
    ||| s == "cublasLtMatmulPreference_t"@
}

/// The handle types whose operations carry a key.
pub open spec fn is_handle_type_with_op_key_name(s: Seq<char>) -> bool {
    ||| s == "cublasHandle_t"@
    ||| s == "CUfunction"@
    ||| s == "cublasLtMatmulDesc_t"@
    ||| s == "cublasLtMatmulPreference_t"@
    ||| s == "cudaEvent_t"@
}

/// The status types that a call may return and still run asynchronously.
pub open spec fn is_async_return_type_name(s: Seq<char>) -> bool {
    ||| s == "CUresult"@
    ||| s == "cudaError_t"@
    ||| s == "nvmlReturn_t"@
    ||| s == "cudnnStatus_t"@
    ||| s == "cublasStatus_t"@
    ||| s == "ncclResult_t"@
}

fn matches_any(s: &str, names: &[&str]) -> (r: bool)
    ensures
        r == exists|i: int| 0 <= i < names@.len() && names@[i]@ == s@,
{
    let mut i: usize = 0;
    while i < names.len()
        invariant
            i <= names@.len(),
            forall|j: int| 0 <= j < i ==> names@[j]@ != s@,
        decreases names@.len() - i,
    {
        if str_equal(names[i], s) {
            return true;
        }
        i = i + 1;
    }
    false
}

/// Whether the type named `last_seg` (the last segment of its path) is a
/// handle type.
pub fn is_handle_type(last_seg: Option<&str>) -> (r: bool)
    ensures
        r == (last_seg matches Some(s) && is_handle_type_name(s@)),
{
    match last_seg {
        None => false,
        Some(s) => {
            let names: [&str; 15] = [
                "CUstream",
                "CUfunction",
                "cudaStream_t",
                "cudaEvent_t",
                "cudnnHandle_t",
                "cudnnActivationDescriptor_t",
                "cudnnConvolutionDescriptor_t",
                "cudnnFilterDescriptor_t",
                "cudnnTensorDescriptor_t",
                "cudnnBackendDescriptor_t",
                "cublasHandle_t",
                "cublasLtHandle_t",
                "cublasLtMatmulDesc_t",
                "cublasLtMatrixLayout_t",
                "cublasLtMatmulPreference_t",
            ];
            let r = matches_any(s, names.as_slice());
            proof {
                if r {
                    let i = choose|i: int| 0 <= i < 15 && names@[i]@ == s@;
                    assert(is_handle_type_name(s@));
                }
            }
            r
        },
    }
}

/// Whether the type named `last_seg` is a handle type whose operations
/// carry a key.
pub fn is_handle_type_with_op_key(last_seg: Option<&str>) -> (r: bool)
    ensures
        r == (last_seg matches Some(s) && is_handle_type_with_op_key_name(s@)),
{
    match last_seg {
        None => false,
        Some(s) => {
            let names: [&str; 5] = [
                "cublasHandle_t",
                "CUfunction",
                "cublasLtMatmulDesc_t",
                "cublasLtMatmulPreference_t",
                "cudaEvent_t",
            ];
            matches_any(s, names.as_slice())
        },
    }
}

/// Whether the type named `last_seg` is a status that an asynchronous call
/// may return.
pub fn is_async_return_type(last_seg: Option<&str>) -> (r: bool)
    ensures
        r == (last_seg matches Some(s) && is_async_return_type_name(s@)),
{
    match last_seg {
        None => false,
        Some(s) => {
            let names: [&str; 6] = [
                "CUresult",
                "cudaError_t",
                "nvmlReturn_t",
                "cudnnStatus_t",
                "cublasStatus_t",
                "ncclResult_t",
            ];
            let r = matches_any(s, names.as_slice());
            proof {
                if r {
                    let i = choose|i: int| 0 <= i < 6 && names@[i]@ == s@;
                }
            }
            r
        },
    }
}

/// How a parameter of a forwarded call travels.
#[derive(Debug, Clone, Copy, PartialEq, Eq)]
pub enum ParamKind {
    /// A plain value, sent as it is.
    InputValue,
    /// A handle the call uses, modifies or destroys.
    InputHandle(InputHandleOp),
    /// A pointer to one value the call reads.
    InputSinglePtr,
    /// A pointer to an array the call reads.
    InputArrayPtr { is_void_ptr: bool },
    /// A C string the call reads.
    InputCStr,
    /// Where the call puts a handle it creates.
    OutputHandle,
    /// Where the call puts one value.
    OutputSinglePtr,
    /// Where the call puts an array; `has_cap` where the buffer's capacity
    /// is given apart from the length written.
    OutputArrayPtr { is_void_ptr: bool, has_cap: bool },
    /// A device pointer the call reads.
    DeviceInputPtr,
    /// A device pointer the call writes.
    DeviceOutputPtr,
    /// A parameter that does not travel.
    Skip,
    /// A parameter that must have a fixed value.
    Const,
}

impl ParamKind {
    /// Whether the call writes the parameter's target on the host.
    pub open spec fn host_output(self) -> bool {
        self is OutputHandle || self is OutputSinglePtr || self is OutputArrayPtr
    }

    /// Whether the call writes the parameter's target on the host.
    pub fn is_host_output(&self) -> (b: bool)
        ensures
            b == self.host_output(),
    {
        match self {
            ParamKind::OutputHandle | ParamKind::OutputSinglePtr | ParamKind::OutputArrayPtr { .. } => true,
            ParamKind::InputValue
            | ParamKind::InputHandle(_)
            | ParamKind::InputSinglePtr
            | ParamKind::InputArrayPtr { .. }
            | ParamKind::InputCStr
            | ParamKind::DeviceInputPtr
            | ParamKind::DeviceOutputPtr
            | ParamKind::Skip
            | ParamKind::Const => false,
        }
    }
}

/// Why a parameter's or a hook's declaration is refused.
#[derive(Debug, Clone, Copy, PartialEq, Eq)]
pub enum HookError {
    /// The attribute's own syntax is wrong.
    Syntax,
    ExpectedSkipOrValue,
    RequiresHandleOp,
    UnexpectedConstHandle,
    RequiresCreate,
    RequiresDeviceOrHost,
    LenRequiredForVoid,
    InputArrayWithCap,
    InputOutputOnConst,
    OnlyCap,
    ModeRequiredForMut,
    ExpectedDeviceOrHost,
    ExpectedHandle,
    UnsupportedProperty,
    MultipleHandleChanges,
    CreateHandleWithHostOutputs,
    CreateHandleWithAfter,
    AsyncApiWithAfter,
    AsyncApiWithHostOutput,
    UnsupportedAsyncReturn,
}

/// The text that a refused declaration is reported with.
pub open spec fn hook_error_text(e: HookError) -> Seq<char> {
    match e {
        HookError::Syntax => "invalid attribute syntax"@,
        HookError::ExpectedSkipOrValue => "expected #[skip] or #[value = ...]"@,
        HookError::RequiresHandleOp => "requires #[handle = \"...\"] (\"use\", \"modify\" or \"destroy\")"@,
        HookError::UnexpectedConstHandle => "unexpected *const handle"@,
        HookError::RequiresCreate => "requires #[handle = \"create\"]"@,
        HookError::RequiresDeviceOrHost => "requires #[device] or #[host(...)]"@,
        HookError::LenRequiredForVoid => "len property is required for void pointer"@,
        HookError::InputArrayWithCap => "input array cannot have cap"@,
        HookError::InputOutputOnConst => "input/output is not allowed on const pointer"@,
        HookError::OnlyCap => "only cap is specified"@,
        HookError::ModeRequiredForMut => "input/output is required for mutable pointer"@,
        HookError::ExpectedDeviceOrHost => "expected #[device] or #[host(...)]"@,
        HookError::ExpectedHandle => "expected #[handle = \"...\"]"@,
        HookError::UnsupportedProperty => "unsupported property"@,
        HookError::MultipleHandleChanges => "cannot create, modify or destroy multiple handles"@,
        HookError::CreateHandleWithHostOutputs => "cannot create handle with other host outputs"@,
        HookError::CreateHandleWithAfter => "cannot create handle with `after` injections"@,
        HookError::AsyncApiWithAfter => "`async_api` cannot have `after` injections"@,
        HookError::AsyncApiWithHostOutput => "`async_api` cannot have host outputs"@,
        HookError::UnsupportedAsyncReturn => "unsupported `async_api` return type"@,
    }
}

impl HookError {
    /// The message the declaration is refused with.
    pub fn message(&self) -> (m: &'static str)
        ensures
            m@ == hook_error_text(*self),
    {
        match self {
            HookError::Syntax => "invalid attribute syntax",
            HookError::ExpectedSkipOrValue => "expected #[skip] or #[value = ...]",
            HookError::RequiresHandleOp => "requires #[handle = \"...\"] (\"use\", \"modify\" or \"destroy\")",
            HookError::UnexpectedConstHandle => "unexpected *const handle",
            HookError::RequiresCreate => "requires #[handle = \"create\"]",
            HookError::RequiresDeviceOrHost => "requires #[device] or #[host(...)]",
            HookError::LenRequiredForVoid => "len property is required for void pointer",
            HookError::InputArrayWithCap => "input array cannot have cap",
            HookError::InputOutputOnConst => "input/output is not allowed on const pointer",
            HookError::OnlyCap => "only cap is specified",
            HookError::ModeRequiredForMut => "input/output is required for mutable pointer",
            HookError::ExpectedDeviceOrHost => "expected #[device] or #[host(...)]",
            HookError::ExpectedHandle => "expected #[handle = \"...\"]",
            HookError::UnsupportedProperty => "unsupported property",
            HookError::MultipleHandleChanges => "cannot create, modify or destroy multiple handles",
            HookError::CreateHandleWithHostOutputs => "cannot create handle with other host outputs",
            HookError::CreateHandleWithAfter => "cannot create handle with `after` injections",
            HookError::AsyncApiWithAfter => "`async_api` cannot have `after` injections",
            HookError::AsyncApiWithHostOutput => "`async_api` cannot have host outputs",
            HookError::UnsupportedAsyncReturn => "unsupported `async_api` return type",
        }
    }
}

/// A property inside `#[host(...)]`.
#[derive(Debug, Clone, Copy, PartialEq, Eq)]
pub enum HostProp {
    Input,
    Output,
    Len,
    Cap,
    /// A property of another name.
    Unsupported,
    /// A property whose syntax is wrong.
    Malformed,
}

/// The form of a parameter's attribute.
pub enum AttrMeta {
    /// `#[name]`.
    Path,
    /// `#[name(...)]`, with the properties inside, in order.
    List(Vec<HostProp>),
    /// `#[name = value]`, with the value's text where it is a string literal.
    NameValue(Option<String>),
}

/// A parameter's attribute: its name, where the path is one identifier,
/// and its form.
pub struct ParamAttr {
    pub ident: Option<String>,
    pub meta: AttrMeta,
}

/// The shape of a parameter's type, as the classification reads it: a raw
/// pointer, const or not, with the last path segment of the pointee, or
/// another type with the last path segment of its own.
pub enum TypeShape {
    Ptr { is_const: bool, elem: Option<String> },
    Other { last_seg: Option<String> },
}

/// The attribute's name, where it is one identifier.
pub open spec fn attr_ident(attr: &ParamAttr) -> Option<Seq<char>> {
    match attr.ident {
        Some(s) => Some(s@),
        None => None,
    }
}

/// The operation text of `#[handle = "..."]`, or why there is none.
pub open spec fn spec_handle_op(attr: &ParamAttr) -> Result<Seq<char>, HookError> {
    match attr.ident {
        None => Err(HookError::Syntax),
        Some(id) => if id@ == "handle"@ {
            match attr.meta {
                AttrMeta::NameValue(Some(v)) => Ok(v@),
                AttrMeta::NameValue(None) => Err(HookError::ExpectedHandle),
                _ => Err(HookError::Syntax),
            }
        } else {
            Err(HookError::ExpectedHandle)
        },
    }
}

/// Reads the operation text of `#[handle = "..."]`.
pub fn parse_handle_op(attr: &ParamAttr) -> (r: Result<String, HookError>)
    ensures
        match r {
            Ok(s) => spec_handle_op(attr) == Ok::<Seq<char>, HookError>(s@),
            Err(e) => spec_handle_op(attr) == Err::<Seq<char>, HookError>(e),
        },
{
    match &attr.ident {
        None => Err(HookError::Syntax),
        Some(id) => {
            if str_equal(id.as_str(), "handle") {
                match &attr.meta {
                    AttrMeta::NameValue(Some(v)) => Ok(v.clone()),
                    AttrMeta::NameValue(None) => Err(HookError::ExpectedHandle),
                    _ => Err(HookError::Syntax),
                }
            } else {
                Err(HookError::ExpectedHandle)
            }
        },
    }
}

/// Which way a host pointer's data goes, as `#[host(...)]` says.
#[derive(Debug, Clone, Copy, PartialEq, Eq)]
pub enum HostMode {
    Unstated,
    Input,
    Output,
}

/// What the properties of `#[host(...)]` say, read in order: the last of
/// `input` and `output` wins; or the first property that is refused.
pub open spec fn spec_host_props(props: Seq<HostProp>) -> Result<(HostMode, bool, bool), HookError>
    decreases props.len(),
{
    if props.len() == 0 {
        Ok((HostMode::Unstated, false, false))
    } else {
        match spec_host_props(props.drop_last()) {
            Err(e) => Err(e),
            Ok((mode, len, cap)) => match props.last() {
                HostProp::Input => Ok((HostMode::Input, len, cap)),
                HostProp::Output => Ok((HostMode::Output, len, cap)),
                HostProp::Len => Ok((mode, true, cap)),
                HostProp::Cap => Ok((mode, len, true)),
                HostProp::Unsupported => Err(HookError::UnsupportedProperty),
                HostProp::Malformed => Err(HookError::Syntax),
            },
        }
    }
}

fn read_host_props(props: &Vec<HostProp>) -> (r: Result<(HostMode, bool, bool), HookError>)
    ensures
        r == spec_host_props(props@),
{
    let mut mode = HostMode::Unstated;
    let mut len = false;
    let mut cap = false;
    let mut i: usize = 0;
    while i < props.len()
        invariant
            i <= props@.len(),
            spec_host_props(props@.take(i as int)) == Ok::<(HostMode, bool, bool), HookError>((mode, len, cap)),
        decreases props@.len() - i,
    {
        assert(props@.take(i + 1).drop_last() =~= props@.take(i as int));
        match props[i] {
            HostProp::Input => { mode = HostMode::Input; },
            HostProp::Output => { mode = HostMode::Output; },
            HostProp::Len => { len = true; },
            HostProp::Cap => { cap = true; },
            HostProp::Unsupported => {
                proof {
                    lemma_host_props_error_stays(props@, i as int + 1, HookError::UnsupportedProperty);
                }
                return Err(HookError::UnsupportedProperty);
            },
            HostProp::Malformed => {
                proof {
                    lemma_host_props_error_stays(props@, i as int + 1, HookError::Syntax);
                }
                return Err(HookError::Syntax);
            },
        }
        i = i + 1;
    }
    assert(props@.take(props@.len() as int) =~= props@);
    Ok((mode, len, cap))
}

/// Once a property is refused, the properties after it do not matter.
proof fn lemma_host_props_error_stays(props: Seq<HostProp>, k: int, e: HookError)
    requires
        0 <= k <= props.len(),
        spec_host_props(props.take(k)) == Err::<(HostMode, bool, bool), HookError>(e),
    ensures
        spec_host_props(props) == Err::<(HostMode, bool, bool), HookError>(e),
    decreases props.len() - k,
{
    if k < props.len() {
        assert(props.take(k + 1).drop_last() =~= props.take(k));
        lemma_host_props_error_stays(props, k + 1, e);
    } else {
        assert(props.take(k) =~= props);
    }
}

/// The last segment of a pointee's type is `name`.
pub open spec fn names(seg: Option<String>, name: Seq<char>) -> bool {
    seg matches Some(s) && s@ == name
}

/// What `#[host(...)]` or `#[device]` on a raw pointer declares.
pub open spec fn spec_parse_ptr_attr(attr: &ParamAttr, is_const: bool, elem: Option<String>) -> Result<ParamKind, HookError> {
    match attr.ident {
        None => Err(HookError::Syntax),
        Some(id) => if id@ == "host"@ {
            let is_void_ptr = names(elem, "c_void"@);
            let props = match attr.meta {
                AttrMeta::Path => Ok((HostMode::Unstated, false, false)),
                AttrMeta::List(ps) => spec_host_props(ps@),
                AttrMeta::NameValue(_) => Err(HookError::Syntax),
            };
            match props {
                Err(e) => Err(e),
                Ok((mode, len, cap)) => if is_void_ptr && !len {
                    Err(HookError::LenRequiredForVoid)
                } else if (is_const && mode is Unstated) || (!is_const && mode is Input) {
                    if cap {
                        Err(HookError::InputArrayWithCap)
                    } else if len {
                        Ok(ParamKind::InputArrayPtr { is_void_ptr })
                    } else {
                        Ok(ParamKind::InputSinglePtr)
                    }
                } else if is_const {
                    Err(HookError::InputOutputOnConst)
                } else if mode is Output {
                    if len {
                        Ok(ParamKind::OutputArrayPtr { is_void_ptr, has_cap: cap })
                    } else if cap {
                        Err(HookError::OnlyCap)
                    } else {
                        Ok(ParamKind::OutputSinglePtr)
                    }
                } else {
                    Err(HookError::ModeRequiredForMut)
                },
            }
        } else if id@ == "device"@ && attr.meta is Path {
            Ok(ParamKind::DeviceInputPtr)
        } else {
            Err(HookError::ExpectedDeviceOrHost)
        },
    }
}

fn opt_str_is(seg: &Option<String>, name: &str) -> (r: bool)
    ensures
        r == names(*seg, name@),
{
    match seg {
        Some(s) => str_equal(s.as_str(), name),
        None => false,
    }
}

/// Whether a raw pointer, given by the last path segment of its pointee,
/// points to `c_void`.
pub fn is_void_ptr(elem: &Option<String>) -> (r: bool)
    ensures
        r == names(*elem, "c_void"@),
{
    opt_str_is(elem, "c_void")
}

/// Whether a raw pointer, given by its constness and the last path segment
/// of its pointee, is a `*const c_char`.
pub fn is_const_cstr(is_const: bool, elem: &Option<String>) -> (r: bool)
    ensures
        r == (is_const && names(*elem, "c_char"@)),
{
    is_const && opt_str_is(elem, "c_char")
}

/// Reads `#[host(...)]` or `#[device]` on a raw pointer.
pub fn parse_ptr_attr(attr: &ParamAttr, is_const: bool, elem: &Option<String>) -> (r: Result<ParamKind, HookError>)
    ensures
        r == spec_parse_ptr_attr(attr, is_const, *elem),
{
    let id = match &attr.ident {
        None => {
            return Err(HookError::Syntax);
        },
        Some(id) => id,
    };
    if str_equal(id.as_str(), "host") {
        let is_void_ptr = is_void_ptr(elem);
        let props = match &attr.meta {
            AttrMeta::Path => Ok((HostMode::Unstated, false, false)),
            AttrMeta::List(ps) => read_host_props(ps),
            AttrMeta::NameValue(_) => Err(HookError::Syntax),
        };
        let (mode, len, cap) = match props {
            Err(e) => {
                return Err(e);
            },
            Ok(p) => p,
        };
        if is_void_ptr && !len {
            return Err(HookError::LenRequiredForVoid);
        }
        let reads = match (is_const, mode) {
            (true, HostMode::Unstated) | (false, HostMode::Input) => true,
            _ => false,
        };
        if reads {
            if cap {
                Err(HookError::InputArrayWithCap)
            } else if len {
                Ok(ParamKind::InputArrayPtr { is_void_ptr })
            } else {
                Ok(ParamKind::InputSinglePtr)
            }
        } else if is_const {
            Err(HookError::InputOutputOnConst)
        } else {
            match mode {
                HostMode::Output => {
                    if len {
                        Ok(ParamKind::OutputArrayPtr { is_void_ptr, has_cap: cap })
                    } else if cap {
                        Err(HookError::OnlyCap)
                    } else {
                        Ok(ParamKind::OutputSinglePtr)
                    }
                },
                _ => Err(HookError::ModeRequiredForMut),
            }
        }
    } else if str_equal(id.as_str(), "device") && matches!(attr.meta, AttrMeta::Path) {
        Ok(ParamKind::DeviceInputPtr)
    } else {
        Err(HookError::ExpectedDeviceOrHost)
    }
}

/// Whether a pointee or type name is one of the handle types.
pub open spec fn names_handle_type(seg: Option<String>) -> bool {
    seg matches Some(s) && is_handle_type_name(s@)
}

/// How a raw pointer parameter travels, given its attribute.
pub open spec fn spec_parse_ptr(attr: Option<&ParamAttr>, is_const: bool, elem: Option<String>) -> Result<ParamKind, HookError> {
    if names_handle_type(elem) {
        if is_const {
            Err(HookError::UnexpectedConstHandle)
        } else {
            match attr {
                None => Err(HookError::RequiresCreate),
                Some(a) => match spec_handle_op(a) {
                    Err(e) => Err(e),
                    Ok(op) => if op == "create"@ {
                        Ok(ParamKind::OutputHandle)
                    } else {
                        Err(HookError::RequiresCreate)
                    },
                },
            }
        }
    } else {
        match attr {
            Some(a) => spec_parse_ptr_attr(a, is_const, elem),
            None => if is_const && names(elem, "c_char"@) {
                Ok(ParamKind::InputCStr)
            } else if is_const || names(elem, "c_void"@) {
                Err(HookError::RequiresDeviceOrHost)
            } else {
                Ok(ParamKind::OutputSinglePtr)
            },
        }
    }
}

/// Classifies a raw pointer parameter.
pub fn parse_ptr(attr: Option<&ParamAttr>, is_const: bool, elem: &Option<String>) -> (r: Result<ParamKind, HookError>)
    ensures
        r == spec_parse_ptr(attr, is_const, *elem),
{
    let elem_name = match elem {
        Some(e) => Some(e.as_str()),
        None => None,
    };
    if is_handle_type(elem_name) {
        if is_const {
            return Err(HookError::UnexpectedConstHandle);
        }
        return match attr {
            None => Err(HookError::RequiresCreate),
            Some(a) => match parse_handle_op(a) {
                Err(e) => Err(e),
                Ok(op) => if str_equal(op.as_str(), "create") {
                    Ok(ParamKind::OutputHandle)
                } else {
                    Err(HookError::RequiresCreate)
                },
            },
        };
    }
    match attr {
        Some(a) => parse_ptr_attr(a, is_const, elem),
        None => {
            if is_const_cstr(is_const, elem) {
                Ok(ParamKind::InputCStr)
            } else if is_const || is_void_ptr(elem) {
                Err(HookError::RequiresDeviceOrHost)
            } else {
                Ok(ParamKind::OutputSinglePtr)
            }
        },
    }
}

/// How a parameter travels, given its attribute, if any, and its type.
pub open spec fn spec_parse_param(attr: Option<&ParamAttr>, ty: &TypeShape) -> Result<ParamKind, HookError> {
    let pre: Result<Option<ParamKind>, HookError> = match attr {
        None => Ok(None),
        Some(a) => match a.ident {
            None => Err(HookError::Syntax),
            Some(id) => if id@ == "skip"@ {
                if a.meta is Path {
                    Ok(Some(ParamKind::Skip))
                } else {
                    Err(HookError::ExpectedSkipOrValue)
                }
            } else if id@ == "value"@ {
                if a.meta is NameValue {
                    Ok(Some(ParamKind::Const))
                } else {
                    Err(HookError::ExpectedSkipOrValue)
                }
            } else {
                Ok(None)
            },
        },
    };
    match pre {
        Err(e) => Err(e),
        Ok(Some(k)) => Ok(k),
        Ok(None) => match ty {
            TypeShape::Ptr { is_const, elem } => spec_parse_ptr(attr, *is_const, *elem),
            TypeShape::Other { last_seg } => if names_handle_type(*last_seg) {
                match attr {
                    None => Err(HookError::RequiresHandleOp),
                    Some(a) => match spec_handle_op(a) {
                        Err(e) => Err(e),
                        Ok(op) => match handle_op_of(op) {
                            Some(o) => Ok(ParamKind::InputHandle(o)),
                            None => Err(HookError::RequiresHandleOp),
                        },
                    },
                }
            } else if attr is None {
                Ok(ParamKind::InputValue)
            } else {
                Err(HookError::ExpectedSkipOrValue)
            },
        },
    }
}

impl ParamKind {
    /// Classifies a parameter by its attribute, if any, and its type.
    pub fn parse(attr: Option<&ParamAttr>, ty: &TypeShape) -> (r: Result<ParamKind, HookError>)
        ensures
            r == spec_parse_param(attr, ty),
    {
        match attr {
            None => {},
            Some(a) => {
                match &a.ident {
                    None => {
                        return Err(HookError::Syntax);
                    },
                    Some(id) => {
                        if str_equal(id.as_str(), "skip") {
                            return match a.meta {
                                AttrMeta::Path => Ok(ParamKind::Skip),
                                _ => Err(HookError::ExpectedSkipOrValue),
                            };
                        } else if str_equal(id.as_str(), "value") {
                            return match a.meta {
                                AttrMeta::NameValue(_) => Ok(ParamKind::Const),
                                _ => Err(HookError::ExpectedSkipOrValue),
                            };
                        }
                    },
                }
            },
        }
        match ty {
            TypeShape::Ptr { is_const, elem } => parse_ptr(attr, *is_const, elem),
            TypeShape::Other { last_seg } => {
                let name = match last_seg {
                    Some(s) => Some(s.as_str()),
                    None => None,
                };
                if is_handle_type(name) {
                    match attr {
                        None => Err(HookError::RequiresHandleOp),
                        Some(a) => match parse_handle_op(a) {
                            Err(e) => Err(e),
                            Ok(op) => match InputHandleOp::parse(op.as_str()) {
                                Some(o) => Ok(ParamKind::InputHandle(o)),
                                None => Err(HookError::RequiresHandleOp),
                            },
                        },
                    }
                } else if attr.is_none() {
                    Ok(ParamKind::InputValue)
                } else {
                    Err(HookError::ExpectedSkipOrValue)
                }
            },
        }
    }
}

/// A hook's declared return type: none, or a type with the last segment
/// of its path.
pub enum ReturnShape {
    Unit,
    Type { last_seg: Option<String> },
}

/// Whether the parameter creates, modifies or destroys a handle.
pub open spec fn changes_handle(k: ParamKind) -> bool {
    ||| k == ParamKind::InputHandle(InputHandleOp::Modify)
    ||| k == ParamKind::InputHandle(InputHandleOp::Destroy)
    ||| k is OutputHandle
}

/// How many parameters create, modify or destroy a handle.
pub open spec fn count_handle_changes(s: Seq<ParamKind>) -> nat
    decreases s.len(),
{
    if s.len() == 0 {
        0
    } else {
        count_handle_changes(s.drop_last()) + if changes_handle(s.last()) {
            1nat
        } else {
            0nat
        }
    }
}

/// How many parameters the call writes on the host.
pub open spec fn count_host_outputs(s: Seq<ParamKind>) -> nat
    decreases s.len(),
{
    if s.len() == 0 {
        0
    } else {
        count_host_outputs(s.drop_last()) + if s.last().host_output() {
            1nat
        } else {
            0nat
        }
    }
}

/// Whether the hook creates a handle.
pub open spec fn creates_handle(s: Seq<ParamKind>) -> bool {
    exists|i: int| 0 <= i < s.len() && s[i] is OutputHandle
}

/// Whether the hook modifies a handle.
pub open spec fn modifies_handle(s: Seq<ParamKind>) -> bool {
    exists|i: int| 0 <= i < s.len() && s[i] == ParamKind::InputHandle(InputHandleOp::Modify)
}

/// Whether a hook with these parameters, `after` injections or not, and
/// this return type can run asynchronously, or why not.
pub open spec fn spec_check_async_api(params: Seq<ParamKind>, ret: &ReturnShape, has_after: bool) -> Result<(), HookError> {
    if has_after {
        Err(HookError::AsyncApiWithAfter)
    } else if count_host_outputs(params) > 0 {
        Err(HookError::AsyncApiWithHostOutput)
    } else {
        match ret {
            ReturnShape::Unit => Ok(()),
            ReturnShape::Type { last_seg } => if last_seg matches Some(s) && is_async_return_type_name(s@) {
                Ok(())
            } else {
                Err(HookError::UnsupportedAsyncReturn)
            },
        }
    }
}

/// Whether a hook's declaration is accepted, or why not.
pub open spec fn spec_check_hook(
    params: Seq<ParamKind>,
    is_async_api: Option<bool>,
    ret: &ReturnShape,
    has_after: bool,
) -> Result<(), HookError> {
    if is_async_api == Some(true) && spec_check_async_api(params, ret, has_after) is Err {
        spec_check_async_api(params, ret, has_after)
    } else if count_handle_changes(params) > 1 {
        Err(HookError::MultipleHandleChanges)
    } else if creates_handle(params) && count_host_outputs(params) > 1 {
        Err(HookError::CreateHandleWithHostOutputs)
    } else if creates_handle(params) && has_after {
        Err(HookError::CreateHandleWithAfter)
    } else {
        Ok(())
    }
}

fn count_changes_and_outputs(params: &[ParamKind]) -> (r: (usize, usize, bool, bool))
    ensures
        r.0 == count_handle_changes(params@),
        r.1 == count_host_outputs(params@),
        r.2 == creates_handle(params@),
        r.3 == modifies_handle(params@),
{
    let mut changes: usize = 0;
    let mut outputs: usize = 0;
    let mut creates = false;
    let mut modifies = false;
    let mut i: usize = 0;
    while i < params.len()
        invariant
            i <= params@.len(),
            changes == count_handle_changes(params@.take(i as int)),
            outputs == count_host_outputs(params@.take(i as int)),
            changes <= i,
            outputs <= i,
            creates == creates_handle(params@.take(i as int)),
            modifies == modifies_handle(params@.take(i as int)),
        decreases params@.len() - i,
    {
        let k = params[i];
        let ghost t = params@.take(i + 1);
        assert(t.drop_last() =~= params@.take(i as int));
        match k {
            ParamKind::InputHandle(InputHandleOp::Modify) => {
                changes = changes + 1;
                modifies = true;
            },
            ParamKind::InputHandle(InputHandleOp::Destroy) => {
                changes = changes + 1;
            },
            ParamKind::OutputHandle => {
                changes = changes + 1;
                outputs = outputs + 1;
                creates = true;
            },
            ParamKind::OutputSinglePtr | ParamKind::OutputArrayPtr { .. } => {
                outputs = outputs + 1;
            },
            _ => {},
        }
        proof {
            assert(t[i as int] == k);
            if creates_handle(t) && !creates_handle(params@.take(i as int)) {
                let j = choose|j: int| 0 <= j < t.len() && t[j] is OutputHandle;
                assert(j == i || params@.take(i as int)[j] is OutputHandle);
            }
            if modifies_handle(t) && !modifies_handle(params@.take(i as int)) {
                let j = choose|j: int| 0 <= j < t.len() && t[j] == ParamKind::InputHandle(InputHandleOp::Modify);
                assert(j == i || params@.take(i as int)[j] == ParamKind::InputHandle(InputHandleOp::Modify));
            }
            if creates_handle(params@.take(i as int)) {
                let j = choose|j: int| 0 <= j < i && params@.take(i as int)[j] is OutputHandle;
                assert(t[j] is OutputHandle);
            }
            if modifies_handle(params@.take(i as int)) {
                let j = choose|j: int| 0 <= j < i && params@.take(i as int)[j] == ParamKind::InputHandle(InputHandleOp::Modify);
                assert(t[j] == ParamKind::InputHandle(InputHandleOp::Modify));
            }
        }
        i = i + 1;
    }
    assert(params@.take(params@.len() as int) =~= params@);
    (changes, outputs, creates, modifies)
}

/// Whether a hook with these parameters can run asynchronously, or why not.
pub fn check_async_api(params: &[ParamKind], ret: &ReturnShape, has_after: bool) -> (r: Result<(), HookError>)
    ensures
        r == spec_check_async_api(params@, ret, has_after),
{
    if has_after {
        return Err(HookError::AsyncApiWithAfter);
    }
    let (_, outputs, _, _) = count_changes_and_outputs(params);
    if outputs > 0 {
        return Err(HookError::AsyncApiWithHostOutput);
    }
    match ret {
        ReturnShape::Unit => Ok(()),
        ReturnShape::Type { last_seg } => {
            let name = match last_seg {
                Some(s) => Some(s.as_str()),
                None => None,
            };
            if is_async_return_type(name) {
                Ok(())
            } else {
                Err(HookError::UnsupportedAsyncReturn)
            }
        },
    }
}

/// A hook declaration: the forwarded call's id, whether it runs
/// asynchronously, the CUDA versions it exists in, and how each parameter
/// travels.
pub struct HookFn {
    pub proc_id: i32,
    pub is_async_api: Option<bool>,
    pub min_cuda_version: u8,
    pub max_cuda_version: u8,
    pub params: Vec<ParamKind>,
}

impl HookFn {
    /// Accepts a hook declaration, or says why it is refused.
    pub fn new(
        proc_id: i32,
        is_async_api: Option<bool>,
        min_cuda_version: u8,
        max_cuda_version: u8,
        params: Vec<ParamKind>,
        ret: &ReturnShape,
        has_after: bool,
    ) -> (r: Result<HookFn, HookError>)
        ensures
            match r {
                Ok(h) => {
                    &&& spec_check_hook(params@, is_async_api, ret, has_after) is Ok
                    &&& h.proc_id == proc_id
                    &&& h.is_async_api == is_async_api
                    &&& h.min_cuda_version == min_cuda_version
                    &&& h.max_cuda_version == max_cuda_version
                    &&& h.params@ == params@
                },
                Err(e) => spec_check_hook(params@, is_async_api, ret, has_after) == Err::<(), HookError>(e),
            },
    {
        if let Some(true) = is_async_api {
            match check_async_api(params.as_slice(), ret, has_after) {
                Err(e) => {
                    return Err(e);
                },
                Ok(()) => {},
            }
        }
        let (changes, outputs, creates, _) = count_changes_and_outputs(params.as_slice());
        if changes > 1 {
            return Err(HookError::MultipleHandleChanges);
        }
        if creates {
            if outputs > 1 {
                return Err(HookError::CreateHandleWithHostOutputs);
            }
            if has_after {
                return Err(HookError::CreateHandleWithAfter);
            }
        }
        Ok(HookFn { proc_id, is_async_api, min_cuda_version, max_cuda_version, params })
    }

    /// Whether the call may run without waiting for its reply.
    pub fn is_async_api(&self) -> (b: bool)
        ensures
            b == (self.is_async_api == Some(true)),
    {
        match self.is_async_api {
            Some(b) => b,
            None => false,
        }
    }

    /// Whether the call creates a handle.
    pub fn is_create_handle(&self) -> (b: bool)
        ensures
            b == creates_handle(self.params@),
    {
        let (_, _, creates, _) = count_changes_and_outputs(self.params.as_slice());
        creates
    }

    /// Whether the call modifies a handle.
    pub fn is_modify_handle(&self) -> (b: bool)
        ensures
            b == modifies_handle(self.params@),
    {
        let (_, _, _, modifies) = count_changes_and_outputs(self.params.as_slice());
        modifies
    }
}


/// The handle types of the CUDA runtime and driver, cuDNN, cuBLAS and
/// cuBLASLt that calls create, use, modify and destroy are all classified
/// as handles: streams, functions, events, and the libraries' handles and
/// descriptors.
pub proof fn lemma_handle_types_known()
    ensures
        is_handle_type_name("CUstream"@),
        is_handle_type_name("CUfunction"@),
        is_handle_type_name("cudaStream_t"@),
        is_handle_type_name("cudaEvent_t"@),
        is_handle_type_name("cudnnHandle_t"@),
        is_handle_type_name("cudnnActivationDescriptor_t"@),
        is_handle_type_name("cudnnConvolutionDescriptor_t"@),
        is_handle_type_name("cudnnFilterDescriptor_t"@),
        is_handle_type_name("cudnnTensorDescriptor_t"@),
        is_handle_type_name("cudnnBackendDescriptor_t"@),
        is_handle_type_name("cublasHandle_t"@),
        is_handle_type_name("cublasLtHandle_t"@),
        is_handle_type_name("cublasLtMatmulDesc_t"@),
        is_handle_type_name("cublasLtMatrixLayout_t"@),
        is_handle_type_name("cublasLtMatmulPreference_t"@),
{
}

/// A handle type whose operations carry a key is a handle type.
pub proof fn lemma_keyed_handles_are_handles(s: Seq<char>)
    ensures
        is_handle_type_with_op_key_name(s) ==> is_handle_type_name(s),
{
}

/// The status types of the CUDA driver and runtime, NVML, cuDNN, cuBLAS and
/// NCCL are all ones an asynchronous call may return.
pub proof fn lemma_async_statuses_known()
    ensures
        is_async_return_type_name("CUresult"@),
        is_async_return_type_name("cudaError_t"@),
        is_async_return_type_name("nvmlReturn_t"@),
        is_async_return_type_name("cudnnStatus_t"@),
        is_async_return_type_name("cublasStatus_t"@),
        is_async_return_type_name("ncclResult_t"@),
{
}

/// A mutable pointer to any of the library handle types, marked
/// `#[handle = "create"]`, is classified as the output of a created handle.
pub proof fn lemma_create_handle_param(attr: &ParamAttr, ty: &TypeShape)
    requires
        attr.ident matches Some(id) && id@ == "handle"@,
        attr.meta matches AttrMeta::NameValue(Some(v)) && v@ == "create"@,
        ty matches TypeShape::Ptr { is_const: false, elem: Some(s) } && (s@ == "CUstream"@ || s@ == "CUfunction"@ || s@ == "cudaStream_t"@ || s@ == "cudaEvent_t"@ || s@ == "cudnnHandle_t"@ || s@ == "cudnnActivationDescriptor_t"@ || s@ == "cudnnConvolutionDescriptor_t"@ || s@ == "cudnnFilterDescriptor_t"@ || s@ == "cudnnTensorDescriptor_t"@ || s@ == "cudnnBackendDescriptor_t"@ || s@ == "cublasHandle_t"@ || s@ == "cublasLtHandle_t"@ || s@ == "cublasLtMatmulDesc_t"@ || s@ == "cublasLtMatrixLayout_t"@ || s@ == "cublasLtMatmulPreference_t"@),
    ensures
        spec_parse_param(Some(attr), ty) == Ok::<ParamKind, HookError>(ParamKind::OutputHandle),
{
    reveal_strlit("handle");
    reveal_strlit("skip");
    reveal_strlit("value");
    assert("handle"@ != "skip"@) by {
        assert("handle"@.len() != "skip"@.len());
    }
    assert("handle"@ != "value"@) by {
        assert("handle"@.len() != "value"@.len());
    }
    let s = ty->elem->0;
    assert(names_handle_type(Some(s)));
}

/// An asynchronous hook with no host outputs and no `after` code, whose
/// return type is one of the library status types, passes the check for
/// asynchronous calls, whatever its parameters.
pub proof fn lemma_async_status_accepted(params: Seq<ParamKind>, ret: &ReturnShape)
    requires
        count_host_outputs(params) == 0,
        ret matches ReturnShape::Type { last_seg: Some(s) } && (s@ == "CUresult"@ || s@ == "cudaError_t"@ || s@ == "nvmlReturn_t"@ || s@ == "cudnnStatus_t"@ || s@ == "cublasStatus_t"@ || s@ == "ncclResult_t"@),
    ensures
        spec_check_async_api(params, ret, false) == Ok::<(), HookError>(()),
{
    lemma_async_statuses_known();
}


/// The handle types whose operations carry a key: cuBLAS and cuBLASLt
/// handles and descriptors, functions and events.
pub proof fn lemma_keyed_handle_types_known()
    ensures
        is_handle_type_with_op_key_name("cublasHandle_t"@),
        is_handle_type_with_op_key_name("CUfunction"@),
        is_handle_type_with_op_key_name("cublasLtMatmulDesc_t"@),
        is_handle_type_with_op_key_name("cublasLtMatmulPreference_t"@),
        is_handle_type_with_op_key_name("cudaEvent_t"@),
{
}

/// Contexts, modules and IPC memory handles are not forwarded as handles.
pub proof fn lemma_unforwarded_handle_types()
    ensures
        !is_handle_type_name("CUcontext"@),
        !is_handle_type_name("CUmodule"@),
        !is_handle_type_name("cudaIpcMemHandle_t"@),
{
    reveal_strlit("CUstream");
    reveal_strlit("CUfunction");
    reveal_strlit("cudaStream_t");
    reveal_strlit("cudaEvent_t");
    reveal_strlit("cudnnHandle_t");
    reveal_strlit("cudnnActivationDescriptor_t");
    reveal_strlit("cudnnConvolutionDescriptor_t");
    reveal_strlit("cudnnFilterDescriptor_t");
    reveal_strlit("cudnnTensorDescriptor_t");
    reveal_strlit("cudnnBackendDescriptor_t");
    reveal_strlit("cublasHandle_t");
    reveal_strlit("cublasLtHandle_t");
    reveal_strlit("cublasLtMatmulDesc_t");
    reveal_strlit("cublasLtMatrixLayout_t");
    reveal_strlit("cublasLtMatmulPreference_t");
    reveal_strlit("CUcontext");
    reveal_strlit("CUmodule");
    reveal_strlit("cudaIpcMemHandle_t");
    assert("CUstream"@.len() == 8);
    assert("CUfunction"@.len() == 10);
    assert("cudaStream_t"@.len() == 12);
    assert("cudaEvent_t"@.len() == 11);
    assert("cudnnHandle_t"@.len() == 13);
    assert("cudnnActivationDescriptor_t"@.len() == 27);
    assert("cudnnConvolutionDescriptor_t"@.len() == 28);
    assert("cudnnFilterDescriptor_t"@.len() == 23);
    assert("cudnnTensorDescriptor_t"@.len() == 23);
    assert("cudnnBackendDescriptor_t"@.len() == 24);
    assert("cublasHandle_t"@.len() == 14);
    assert("cublasLtHandle_t"@.len() == 16);
    assert("cublasLtMatmulDesc_t"@.len() == 20);
    assert("cublasLtMatrixLayout_t"@.len() == 22);
    assert("cublasLtMatmulPreference_t"@.len() == 26);
    assert("CUcontext"@.len() == 9);
    assert("CUmodule"@.len() == 8);
    assert("CUmodule"@[2] != "CUstream"@[2]);
}

} // verus!
