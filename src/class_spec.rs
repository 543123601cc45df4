//! Class specifications: a guest-visible class name, the natively implemented
//! methods attached to it, and an optional superclass.

use vstd::prelude::*;
use vstd::string::*;

verus! {

/// How many arguments a native method takes from guest code.
#[derive(Clone, Copy, Debug, PartialEq, Eq, Structural)]
pub enum Arity {
    /// The method takes no arguments.
    Zero,
    /// The method takes exactly this many arguments.
    Exact(u8),
}

impl Arity {
    /// Whether a call with `n` arguments meets this arity.
    pub open spec fn admits_spec(self, n: nat) -> bool {
        match self {
            Arity::Zero => n == 0,
            Arity::Exact(k) => n == k as nat,
        }
    }

    /// Checks an argument count against this arity before a native method runs.
    pub fn admits(&self, n: usize) -> (r: bool)
        ensures
            r == self.admits_spec(n as nat),
    {
        match self {
            Arity::Zero => n == 0,
            Arity::Exact(k) => n == *k as usize,
        }
    }
}

/// Why an extension could not be installed.
#[derive(Clone, Copy, Debug, PartialEq, Eq, Structural)]
pub enum ExtensionError {
    /// The class name or the native-method declarations are malformed, or the
    /// interpreter refused to define the class.
    SpecInvalid,
    /// The in-language source of the extension failed to parse or raised.
    EvalFailed,
}

/// One entry of a native-method table: the guest-visible name and its arity.
/// The host function that implements it is bound by the embedding program.
pub struct NativeMethod {
    pub name: String,
    pub arity: Arity,
}

/// A character that may follow the first letter of a constant name.
pub open spec fn is_name_char(c: char) -> bool {
    ('A' <= c <= 'Z') || ('a' <= c <= 'z') || ('0' <= c <= '9') || c == '_'
}

/// A guest constant name: an upper-case ASCII letter followed by ASCII letters,
/// digits and underscores.
pub open spec fn is_constant_name(s: Seq<char>) -> bool {
    &&& s.len() > 0
    &&& 'A' <= s[0] <= 'Z'
    &&& forall|i: int| 1 <= i < s.len() ==> is_name_char(#[trigger] s[i])
}

/// A method name is handed to the interpreter as a NUL-terminated string: it
/// is non-empty and holds no NUL character.
pub open spec fn is_method_name(s: Seq<char>) -> bool {
    &&& s.len() > 0
    &&& forall|i: int| 0 <= i < s.len() ==> #[trigger] s[i] != '\0'
}

/// Every method name is well formed and no two entries share a name.
pub open spec fn valid_methods(ms: Seq<NativeMethod>) -> bool {
    &&& forall|i: int| 0 <= i < ms.len() ==> is_method_name(#[trigger] ms[i].name@)
    &&& forall|i: int, j: int|
        0 <= i < j < ms.len() ==> #[trigger] ms[i].name@ != #[trigger] ms[j].name@
}

/// Decides `is_constant_name`.
pub fn check_constant_name(s: &str) -> (r: bool)
    ensures
        r == is_constant_name(s@),
{
    let n = s.unicode_len();
    if n == 0 {
        return false;
    }
    let c0 = s.get_char(0);
    if !('A' <= c0 && c0 <= 'Z') {
        return false;
    }
    let mut i: usize = 1;
    while i < n
        invariant
            n == s@.len(),
            1 <= i <= n,
            forall|k: int| 1 <= k < i ==> is_name_char(#[trigger] s@[k]),
        decreases n - i,
    {
        let c = s.get_char(i);
        if !(('A' <= c && c <= 'Z') || ('a' <= c && c <= 'z') || ('0' <= c && c <= '9') || c
            == '_') {
            return false;
        }
        i = i + 1;
    }
    true
}

/// Decides `is_method_name`.
pub fn check_method_name(s: &str) -> (r: bool)
    ensures
        r == is_method_name(s@),
{
    let n = s.unicode_len();
    if n == 0 {
        return false;
    }
    let mut i: usize = 0;
    while i < n
        invariant
            n == s@.len(),
            i <= n,
            forall|k: int| 0 <= k < i ==> #[trigger] s@[k] != '\0',
        decreases n - i,
    {
        if s.get_char(i) == '\0' {
            return false;
        }
        i = i + 1;
    }
    true
}

/// Decides `valid_methods`.
pub fn check_methods(ms: &Vec<NativeMethod>) -> (r: bool)
    ensures
        r == valid_methods(ms@),
{
    let n = ms.len();
    let mut i: usize = 0;
    while i < n
        invariant
            n == ms@.len(),
            i <= n,
            forall|k: int| 0 <= k < i ==> is_method_name(#[trigger] ms@[k].name@),
            forall|a: int, b: int|
                0 <= a < b < ms@.len() && a < i ==> #[trigger] ms@[a].name@ != #[trigger] ms@[b].name@,
        decreases n - i,
    {
        if !check_method_name(ms[i].name.as_str()) {
            return false;
        }
        let mut j: usize = i + 1;
        while j < n
            invariant
                n == ms@.len(),
                i < n,
                i < j <= n,
                forall|b: int| i < b < j ==> ms@[i as int].name@ != #[trigger] ms@[b].name@,
            decreases n - j,
        {
            if ms[i].name == ms[j].name {
                return false;
            }
            j = j + 1;
        }
        i = i + 1;
    }
    true
}

/// An immutable descriptor of a natively implemented guest class. Once
/// handed to the interpreter, the live class object belongs to the interpreter.
pub struct ClassSpec {
    pub name: String,
    pub methods: Vec<NativeMethod>,
    pub superclass: Option<String>,
}

impl ClassSpec {
    /// The class name, each superclass name and each method declaration is well formed.
    pub open spec fn wf(&self) -> bool {
        &&& is_constant_name(self.name@)
        &&& valid_methods(self.methods@)
        &&& match self.superclass {
            Some(sup) => is_constant_name(sup@),
            None => true,
        }
    }

    /// Builds a class specification, refusing a malformed class name, a
    /// malformed superclass name, a malformed method name or two methods with
    /// one name.
    pub fn new(name: String, methods: Vec<NativeMethod>, superclass: Option<String>) -> (r: Result<
        ClassSpec,
        ExtensionError,
    >)
        ensures
            match r {
                Ok(spec) => spec.wf() && spec.name@ == name@ && spec.methods@ == methods@
                    && spec.superclass == superclass,
                Err(e) => e == ExtensionError::SpecInvalid,
            },
            r is Ok <==> (ClassSpec { name, methods, superclass }).wf(),
    {
        if !check_constant_name(name.as_str()) {
            return Err(ExtensionError::SpecInvalid);
        }
        let sup_ok = match &superclass {
            Some(sup) => check_constant_name(sup.as_str()),
            None => true,
        };
        if !sup_ok {
            return Err(ExtensionError::SpecInvalid);
        }
        if !check_methods(&methods) {
            return Err(ExtensionError::SpecInvalid);
        }
        Ok(ClassSpec { name, methods, superclass })
    }
}

/// The demonstration class: its one native method takes no arguments and
/// returns a new instance of the class.
pub struct Demo;

/// The specification of the `Demo` class: one native method, `native`, that
/// takes no arguments, and no superclass.
pub fn init() -> (r: ClassSpec)
    ensures
        r.wf(),
        r.name@ == "Demo"@,
        r.methods@.len() == 1,
        r.methods@[0].name@ == "native"@,
        r.methods@[0].arity == Arity::Zero,
        r.superclass is None,
{
    let mut methods: Vec<NativeMethod> = Vec::new();
    methods.push(NativeMethod { name: "native".to_owned(), arity: Arity::Zero });
    let spec = ClassSpec { name: "Demo".to_owned(), methods, superclass: None };
    proof {
        reveal_strlit("Demo");
        reveal_strlit("native");
        assert(is_constant_name(spec.name@));
        assert(is_method_name(spec.methods@[0].name@));
    }
    spec
}

} // verus!
