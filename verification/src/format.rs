//! Number formats and their codes.
//!
//! A fixed table gives the codes of the built-in patterns. Every other
//! pattern gets a code of its own from the registry of a style table: the
//! first such pattern gets 164, and each further one the next number.

use vstd::prelude::*;
use crate::text::str_eq;

verus! {

/// The code that the first custom pattern of a table gets.
pub const FIRST_CUSTOM_CODE: u32 = 164;

/// The code of a built-in pattern, `None` for every other text.
pub open spec fn builtin_code(pattern: Seq<char>) -> Option<u32> {
    if pattern == ""@ {
        Some(0u32)
    } else if pattern == "General"@ {
        Some(0u32)
    } else if pattern == "0"@ {
        Some(1u32)
    } else if pattern == "0.00"@ {
        Some(2u32)
    } else if pattern == "#,##0"@ {
        Some(3u32)
    } else if pattern == "#,##0.00"@ {
        Some(4u32)
    } else if pattern == "0%"@ {
        Some(9u32)
    } else if pattern == "0.00%"@ {
        Some(10u32)
    } else if pattern == "0.00E+00"@ {
        Some(11u32)
    } else if pattern == "# ?/?"@ {
        Some(12u32)
    } else if pattern == "# ??/??"@ {
        Some(13u32)
    } else if pattern == "mm-dd-yy"@ {
        Some(14u32)
    } else if pattern == "d-mmm-yy"@ {
        Some(15u32)
    } else if pattern == "d-mmm"@ {
        Some(16u32)
    } else if pattern == "mmm-yy"@ {
        Some(17u32)
    } else if pattern == "h:mm AM/PM"@ {
        Some(18u32)
    } else if pattern == "h:mm:ss AM/PM"@ {
        Some(19u32)
    } else if pattern == "h:mm"@ {
        Some(20u32)
    } else if pattern == "h:mm:ss"@ {
        Some(21u32)
    } else if pattern == "m/d/yy h:mm"@ {
        Some(22u32)
    } else if pattern == "#,##0 ;(#,##0)"@ {
        Some(37u32)
    } else if pattern == "#,##0 ;[Red](#,##0)"@ {
        Some(38u32)
    } else if pattern == "#,##0.00;[Red](#,##0.00)"@ {
        Some(40u32)
    } else if pattern == "mm:ss"@ {
        Some(45u32)
    } else if pattern == "[h]:mm:ss"@ {
        Some(46u32)
    } else if pattern == "mmss.0"@ {
        Some(47u32)
    } else if pattern == "##0.0E+0"@ {
        Some(48u32)
    } else if pattern == "@"@ {
        Some(49u32)
    } else {
        None
    }
}

/// The custom patterns of a table with their codes, and the code that the
/// next new pattern gets.
pub struct Registry {
    pub codes: Map<Seq<char>, int>,
    pub next: int,
}

impl Registry {
    /// The registry of a new table.
    pub open spec fn empty() -> Registry {
        Registry { codes: Map::empty(), next: FIRST_CUSTOM_CODE as int }
    }

    /// The codes are those from 164 up to `next`, each is given to one
    /// pattern, and no built-in pattern has one.
    pub open spec fn wf(self) -> bool {
        &&& self.codes.dom().finite()
        &&& self.next == FIRST_CUSTOM_CODE + self.codes.dom().len()
        &&& forall|p: Seq<char>| #[trigger]
            self.codes.contains_key(p) ==> FIRST_CUSTOM_CODE <= self.codes[p] < self.next
        &&& forall|p: Seq<char>, q: Seq<char>|
            #![trigger self.codes[p], self.codes[q]]
            self.codes.contains_key(p) && self.codes.contains_key(q) && self.codes[p]
                == self.codes[q] ==> p == q
        &&& forall|p: Seq<char>| #[trigger]
            self.codes.contains_key(p) ==> builtin_code(p) is None
    }

    /// Whether `pattern` gets a new code when it is resolved.
    pub open spec fn is_new(self, pattern: Seq<char>) -> bool {
        builtin_code(pattern) is None && !self.codes.contains_key(pattern)
    }

    /// The code of `pattern`: that of the built-in table, else the one it has
    /// in the registry, else the next free one.
    pub open spec fn code_of(self, pattern: Seq<char>) -> int {
        match builtin_code(pattern) {
            Some(code) => code as int,
            None => if self.codes.contains_key(pattern) {
                self.codes[pattern]
            } else {
                self.next
            },
        }
    }

    /// The registry after `pattern` was resolved: a new pattern is entered
    /// with the next free code, and nothing else changes.
    pub open spec fn resolved(self, pattern: Seq<char>) -> Registry {
        if self.is_new(pattern) {
            Registry { codes: self.codes.insert(pattern, self.next), next: self.next + 1 }
        } else {
            self
        }
    }
}

/// Resolving a pattern keeps a registry in order.
pub proof fn lemma_resolved_wf(registry: Registry, pattern: Seq<char>)
    requires
        registry.wf(),
    ensures
        registry.resolved(pattern).wf(),
{
    if registry.is_new(pattern) {
        let after = registry.resolved(pattern);
    }
}

/// Resolving a pattern a second time gives the code of the first time and
/// changes nothing.
pub proof fn lemma_resolve_again(registry: Registry, pattern: Seq<char>)
    ensures
        registry.resolved(pattern).code_of(pattern) == registry.code_of(pattern),
        registry.resolved(pattern).resolved(pattern) == registry.resolved(pattern),
{
}

/// Two different patterns that are both new get two codes in a row, in the
/// order in which they are resolved; in a new table these are 164 and 165.
pub proof fn lemma_new_patterns_get_codes_in_a_row(
    registry: Registry,
    first: Seq<char>,
    second: Seq<char>,
)
    requires
        registry.is_new(first),
        registry.is_new(second),
        first != second,
    ensures
        registry.code_of(first) == registry.next,
        registry.resolved(first).code_of(second) == registry.next + 1,
        registry.resolved(first).resolved(second).code_of(first) == registry.next,
        registry == Registry::empty() ==> registry.code_of(first) == 164
            && registry.resolved(first).code_of(second) == 165,
{
}

/// A pattern keeps its code whatever is resolved later, and two different
/// patterns outside the built-in table never share a code.
pub proof fn lemma_codes_stay_and_differ(registry: Registry, earlier: Seq<char>, later: Seq<char>)
    requires
        registry.wf(),
    ensures
        registry.resolved(earlier).resolved(later).code_of(earlier) == registry.code_of(earlier),
        earlier != later && builtin_code(earlier) is None && builtin_code(later) is None
            ==> registry.resolved(earlier).resolved(later).code_of(earlier)
            != registry.resolved(earlier).resolved(later).code_of(later),
{
    lemma_resolved_wf(registry, earlier);
}

/// A built-in pattern has the code of the built-in table, which is below
/// every custom code, and resolving it leaves the registry as it is.
pub proof fn lemma_builtin_patterns_bypass_registry(registry: Registry, pattern: Seq<char>)
    requires
        builtin_code(pattern) is Some,
    ensures
        registry.code_of(pattern) == builtin_code(pattern)->0,
        registry.code_of(pattern) < FIRST_CUSTOM_CODE,
        registry.resolved(pattern) == registry,
{
}

/// The code of a built-in pattern.
pub fn get_format_code(format: &str) -> (r: Option<u32>)
    ensures
        r == builtin_code(format@),
{
    if str_eq(format, "") {
        Some(0)
    } else if str_eq(format, "General") {
        Some(0)
    } else if str_eq(format, "0") {
        Some(1)
    } else if str_eq(format, "0.00") {
        Some(2)
    } else if str_eq(format, "#,##0") {
        Some(3)
    } else if str_eq(format, "#,##0.00") {
        Some(4)
    } else if str_eq(format, "0%") {
        Some(9)
    } else if str_eq(format, "0.00%") {
        Some(10)
    } else if str_eq(format, "0.00E+00") {
        Some(11)
    } else if str_eq(format, "# ?/?") {
        Some(12)
    } else if str_eq(format, "# ??/??") {
        Some(13)
    } else if str_eq(format, "mm-dd-yy") {
        Some(14)
    } else if str_eq(format, "d-mmm-yy") {
        Some(15)
    } else if str_eq(format, "d-mmm") {
        Some(16)
    } else if str_eq(format, "mmm-yy") {
        Some(17)
    } else if str_eq(format, "h:mm AM/PM") {
        Some(18)
    } else if str_eq(format, "h:mm:ss AM/PM") {
        Some(19)
    } else if str_eq(format, "h:mm") {
        Some(20)
    } else if str_eq(format, "h:mm:ss") {
        Some(21)
    } else if str_eq(format, "m/d/yy h:mm") {
        Some(22)
    } else if str_eq(format, "#,##0 ;(#,##0)") {
        Some(37)
    } else if str_eq(format, "#,##0 ;[Red](#,##0)") {
        Some(38)
    } else if str_eq(format, "#,##0.00;[Red](#,##0.00)") {
        Some(40)
    } else if str_eq(format, "mm:ss") {
        Some(45)
    } else if str_eq(format, "[h]:mm:ss") {
        Some(46)
    } else if str_eq(format, "mmss.0") {
        Some(47)
    } else if str_eq(format, "##0.0E+0") {
        Some(48)
    } else if str_eq(format, "@") {
        Some(49)
    } else {
        None
    }
}

} // verus!
