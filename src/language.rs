//! Choosing the ecosystem of a repository from the marker files it holds.

use vstd::prelude::*;
use crate::error::ReleaseError;

verus! {

/// The supported ecosystems.
#[derive(Debug, Clone, Copy, PartialEq, Eq, Structural)]
pub enum Language {
    Rust,
    Kotlin,
    JsTs,
    Swift,
}

/// Which marker files exist in the working directory.
#[derive(Debug, Clone, Copy, PartialEq, Eq, Structural)]
pub struct Markers {
    pub package_json: bool,
    pub build_gradle_kts: bool,
    pub cargo_toml: bool,
    pub package_swift: bool,
}

/// The ecosystem of the first present marker, in the order package
/// descriptor, build script, crate manifest, Swift package.
pub open spec fn detected(m: Markers) -> Option<Language> {
    if m.package_json {
        Some(Language::JsTs)
    } else if m.build_gradle_kts {
        Some(Language::Kotlin)
    } else if m.cargo_toml {
        Some(Language::Rust)
    } else if m.package_swift {
        Some(Language::Swift)
    } else {
        None
    }
}

impl Language {
    /// The display name of the ecosystem.
    pub fn name(&self) -> (r: String)
        ensures
            r@ == match self {
                Language::Rust => "Rust"@,
                Language::Kotlin => "Kotlin"@,
                Language::JsTs => "JS/TS"@,
                Language::Swift => "Swift"@,
            },
    {
        match self {
            Language::Rust => String::from_str("Rust"),
            Language::Kotlin => String::from_str("Kotlin"),
            Language::JsTs => String::from_str("JS/TS"),
            Language::Swift => String::from_str("Swift"),
        }
    }
}

/// Picks the ecosystem from the markers present; fails when none is.
pub fn detect_language(m: &Markers) -> (r: Result<Language, ReleaseError>)
    ensures
        match detected(*m) {
            Some(l) => r == Ok::<Language, ReleaseError>(l),
            None => r == Err::<Language, ReleaseError>(ReleaseError::Detection),
        },
{
    if m.package_json {
        return Ok(Language::JsTs);
    }
    if m.build_gradle_kts {
        return Ok(Language::Kotlin);
    }
    if m.cargo_toml {
        return Ok(Language::Rust);
    }
    if m.package_swift {
        return Ok(Language::Swift);
    }
    Err(ReleaseError::Detection)
}

/// Detection depends on the markers alone, and a present marker wins over
/// every marker after it in the priority order.
pub proof fn detection_follows_priority(m: Markers, n: Markers)
    ensures
        m == n ==> detected(m) == detected(n),
        m.package_json ==> detected(m) == Some(Language::JsTs),
        !m.package_json && m.build_gradle_kts ==> detected(m) == Some(Language::Kotlin),
        !m.package_json && !m.build_gradle_kts && m.cargo_toml ==> detected(m) == Some(
            Language::Rust,
        ),
        !m.package_json && !m.build_gradle_kts && !m.cargo_toml && m.package_swift ==> detected(m)
            == Some(Language::Swift),
        detected(m) is None <==> !m.package_json && !m.build_gradle_kts && !m.cargo_toml
            && !m.package_swift,
{
}

} // verus!
