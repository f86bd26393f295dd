//! Build identity of the two binaries built around this library.

use vstd::prelude::*;
use vstd::string::StringExecFns;

verus! {

/// Version of the backup client.
pub const BACKER_VERSION: &'static str = "0.1.1";

/// Version of the peer protocol server.
pub const BACKER_SERVER_VERSION: &'static str = "0.1.1";

/// What a binary prints when asked for its version.
pub struct VersionInfo {
    pub name: &'static str,
    pub version: &'static str,
    pub compiler: &'static str,
    pub compile_time: &'static str,
}

impl VersionInfo {
    /// The version banner, one labelled line per field.
    pub fn render(&self) -> (r: String)
        ensures
            r@ == "    Name: "@ + self.name@ + "\n    Version: "@ + self.version@
                + "\n    Compiler: "@ + self.compiler@ + "\n    CompileTime: "@
                + self.compile_time@,
    {
        let mut out = String::from_str("    Name: ");
        out.append(self.name);
        out.append("\n    Version: ");
        out.append(self.version);
        out.append("\n    Compiler: ");
        out.append(self.compiler);
        out.append("\n    CompileTime: ");
        out.append(self.compile_time);
        out
    }
}

} // verus!
