//! Runtime description for the `X-TypeSafe-Runtime` header.

use vstd::prelude::*;

verus! {

/// Runtime name and platform.
pub open spec fn runtime_text(os: Seq<char>, arch: Seq<char>) -> Seq<char> {
    "rust ("@ + os + "; "@ + arch + ")"@
}

/// Runtime name and platform, as in `rust (macos; aarch64)`.
pub fn describe_runtime(os: &str, arch: &str) -> (text: String)
    ensures
        text@ == runtime_text(os@, arch@),
{
    let mut text = "rust (".to_owned();
    text.append(os);
    text.append("; ");
    text.append(arch);
    text.append(")");
    text
}

} // verus!
