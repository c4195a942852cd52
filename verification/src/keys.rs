//! The fixed vocabulary of recognized JSON-LD keys.
//!
//! Two of them mark an object as a reference to another document
//! (the identifier key and the reference key), one holds the context
//! (whose expansion is caller-controlled), and one holds the type name
//! (never followed as a link, even when it looks like a URL).

use vstd::prelude::*;

verus! {

/// The identifier key: its string value names the document this object denotes.
pub const AT_ID: &'static str = "@id";

/// The reference key: like the identifier key, it marks the object as a
/// reference to another document.
pub const AT_REF: &'static str = "@ref";

/// The context key: a conventionally bulky field whose expansion is optional.
pub const AT_CONTEXT: &'static str = "@context";

/// The type key: its value is never treated as a followable URL.
pub const AT_TYPE: &'static str = "@type";

/// The identifier key's characters.
pub open spec fn id_key() -> Seq<char> {
    "@id"@
}

/// The reference key's characters.
pub open spec fn ref_key() -> Seq<char> {
    "@ref"@
}

/// The context key's characters.
pub open spec fn context_key() -> Seq<char> {
    "@context"@
}

/// The type key's characters.
pub open spec fn type_key() -> Seq<char> {
    "@type"@
}

} // verus!
