use vstd::prelude::*;
use vstd::string::StringSliceAdditionalSpecFns;

verus! {

/// The grammar a file is parsed under; one per file, never mixed.
#[derive(Clone, Copy, Debug, PartialEq, Eq, Structural)]
pub enum Dialect {
    /// Plain JavaScript, no JSX.
    Script,
    /// JavaScript with JSX.
    ScriptJsx,
    /// TypeScript, no JSX.
    TypeScript,
    /// TypeScript with JSX (TSX).
    TypeScriptJsx,
}

impl Dialect {
    pub open spec fn spec_jsx(self) -> bool {
        self is ScriptJsx || self is TypeScriptJsx
    }

    pub open spec fn spec_typescript(self) -> bool {
        self is TypeScript || self is TypeScriptJsx
    }

    /// Whether JSX syntax is enabled.
    pub fn jsx(self) -> (r: bool)
        ensures
            r == self.spec_jsx(),
    {
        match self {
            Dialect::ScriptJsx | Dialect::TypeScriptJsx => true,
            _ => false,
        }
    }

    /// Whether TypeScript syntax is enabled.
    pub fn typescript(self) -> (r: bool)
        ensures
            r == self.spec_typescript(),
    {
        match self {
            Dialect::TypeScript | Dialect::TypeScriptJsx => true,
            _ => false,
        }
    }
}

/// `s` ends with `suffix`.
pub open spec fn has_suffix(s: Seq<u8>, suffix: Seq<u8>) -> bool {
    suffix.len() <= s.len() && s.subrange(s.len() - suffix.len(), s.len() as int) == suffix
}

/// The dialect a path's suffix selects: `.ts` is TypeScript, `.tsx` is
/// TypeScript with JSX, `.jsx` is JavaScript with JSX, anything else is
/// plain JavaScript (bytes 46, 116, 115, 120, 106 are `.`, `t`, `s`, `x`, `j`).
pub open spec fn spec_dialect_for_path(path: Seq<u8>) -> Dialect {
    if has_suffix(path, seq![46u8, 116u8, 115u8, 120u8]) {
        Dialect::TypeScriptJsx
    } else if has_suffix(path, seq![46u8, 116u8, 115u8]) {
        Dialect::TypeScript
    } else if has_suffix(path, seq![46u8, 106u8, 115u8, 120u8]) {
        Dialect::ScriptJsx
    } else {
        Dialect::Script
    }
}

fn ends_with(s: &[u8], suffix: &[u8]) -> (r: bool)
    ensures
        r == has_suffix(s@, suffix@),
{
    if suffix.len() > s.len() {
        return false;
    }
    let off: usize = s.len() - suffix.len();
    let mut i: usize = 0;
    while i < suffix.len()
        invariant
            suffix@.len() <= s@.len(),
            off == s@.len() - suffix@.len(),
            s@.len() == s.len(),
            0 <= i <= suffix@.len(),
            forall|k: int| 0 <= k < i ==> s@[off + k] == suffix@[k],
        decreases suffix@.len() - i,
    {
        if s[off + i] != suffix[i] {
            assert(s@.subrange(off as int, s@.len() as int)[i as int] != suffix@[i as int]);
            return false;
        }
        i = i + 1;
    }
    assert(s@.subrange(off as int, s@.len() as int) =~= suffix@);
    true
}

/// Selects the dialect of a file from its path suffix.
pub fn dialect_for_path(path: &str) -> (r: Dialect)
    ensures
        r == spec_dialect_for_path(path.spec_bytes()),
{
    let b = path.as_bytes();
    let tsx: [u8; 4] = [46u8, 116u8, 115u8, 120u8];
    let ts: [u8; 3] = [46u8, 116u8, 115u8];
    let jsx: [u8; 4] = [46u8, 106u8, 115u8, 120u8];
    assert(tsx@ =~= seq![46u8, 116u8, 115u8, 120u8]);
    assert(ts@ =~= seq![46u8, 116u8, 115u8]);
    assert(jsx@ =~= seq![46u8, 106u8, 115u8, 120u8]);
    if ends_with(b, tsx.as_slice()) {
        Dialect::TypeScriptJsx
    } else if ends_with(b, ts.as_slice()) {
        Dialect::TypeScript
    } else if ends_with(b, jsx.as_slice()) {
        Dialect::ScriptJsx
    } else {
        Dialect::Script
    }
}

} // verus!
