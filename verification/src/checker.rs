//! Per-directory statistics and the structure violations found while scanning.
use vstd::prelude::*;

verus! {

/// Immediate child inventory of one directory.
#[derive(Debug, Clone, Copy, PartialEq, Eq, Structural)]
pub struct DirStats {
    /// Number of counted files directly inside the directory.
    pub file_count: usize,
    /// Number of counted subdirectories directly inside the directory.
    pub dir_count: usize,
    /// Depth of the directory below the scan root (the root is 0).
    pub depth: usize,
}

impl DirStats {
    /// Empty statistics for a directory at `depth`.
    pub fn at_depth(depth: usize) -> (r: DirStats)
        ensures
            r == (DirStats { file_count: 0, dir_count: 0, depth }),
    {
        DirStats { file_count: 0, dir_count: 0, depth }
    }
}

impl Default for DirStats {
    fn default() -> (r: Self)
        ensures
            r == (DirStats { file_count: 0, dir_count: 0, depth: 0 }),
    {
        DirStats::at_depth(0)
    }
}

/// What kind of structure rule an entry breaks.
#[derive(Debug, Clone, PartialEq, Eq)]
pub enum ViolationType {
    /// A file outside an allowlist.
    DisallowedFile,
    /// A file matching a deny rule; `pattern` is the extension or pattern that matched.
    DeniedFile { pattern: String },
    /// A directory outside a directory allowlist.
    DisallowedDirectory,
    /// A directory matching a deny rule; `pattern` is the pattern that matched.
    DeniedDirectory { pattern: String },
    /// A file whose name does not match the naming convention `expected_pattern`.
    NamingConvention { expected_pattern: String },
}

/// A structure violation at `path`, found by the rule whose scope is
/// `triggering_rule_pattern` (`global` for the global rules).
#[derive(Debug, Clone)]
pub struct StructureViolation {
    /// The offending file or directory.
    pub path: String,
    /// What was violated.
    pub violation_type: ViolationType,
    /// Scope of the rule that found the violation, or `global`.
    pub triggering_rule_pattern: String,
}

/// The shape of a violation type, over plain character sequences.
pub enum ViolationKind {
    DisallowedFile,
    DeniedFile(Seq<char>),
    DisallowedDirectory,
    DeniedDirectory(Seq<char>),
    NamingConvention(Seq<char>),
}

impl ViolationType {
    /// The violation type with its text as character sequences.
    pub open spec fn kind(&self) -> ViolationKind {
        match self {
            ViolationType::DisallowedFile => ViolationKind::DisallowedFile,
            ViolationType::DeniedFile { pattern } => ViolationKind::DeniedFile(pattern@),
            ViolationType::DisallowedDirectory => ViolationKind::DisallowedDirectory,
            ViolationType::DeniedDirectory { pattern } => ViolationKind::DeniedDirectory(pattern@),
            ViolationType::NamingConvention { expected_pattern } => ViolationKind::NamingConvention(
                expected_pattern@,
            ),
        }
    }
}

/// A violation as plain values: the path, the kind and the triggering rule.
pub struct ViolationView {
    pub path: Seq<char>,
    pub kind: ViolationKind,
    pub rule: Seq<char>,
}

impl View for StructureViolation {
    type V = ViolationView;

    open spec fn view(&self) -> ViolationView {
        ViolationView {
            path: self.path@,
            kind: self.violation_type.kind(),
            rule: self.triggering_rule_pattern@,
        }
    }
}

impl StructureViolation {
    /// A copy of the violation.
    pub fn clone_violation(&self) -> (r: Self)
        ensures
            r@ == self@,
    {
        let violation_type = match &self.violation_type {
            ViolationType::DisallowedFile => ViolationType::DisallowedFile,
            ViolationType::DeniedFile { pattern } => ViolationType::DeniedFile {
                pattern: pattern.clone(),
            },
            ViolationType::DisallowedDirectory => ViolationType::DisallowedDirectory,
            ViolationType::DeniedDirectory { pattern } => ViolationType::DeniedDirectory {
                pattern: pattern.clone(),
            },
            ViolationType::NamingConvention { expected_pattern } => ViolationType::NamingConvention {
                expected_pattern: expected_pattern.clone(),
            },
        };
        StructureViolation {
            path: self.path.clone(),
            violation_type,
            triggering_rule_pattern: self.triggering_rule_pattern.clone(),
        }
    }

    /// A file outside the allowlist of `rule`.
    pub fn disallowed_file(path: String, rule: String) -> (r: Self)
        ensures
            r@ == (ViolationView { path: path@, kind: ViolationKind::DisallowedFile, rule: rule@ }),
    {
        StructureViolation {
            path,
            violation_type: ViolationType::DisallowedFile,
            triggering_rule_pattern: rule,
        }
    }

    /// A file denied by `pattern` of `rule`.
    pub fn denied_file(path: String, rule: String, pattern: String) -> (r: Self)
        ensures
            r@ == (ViolationView {
                path: path@,
                kind: ViolationKind::DeniedFile(pattern@),
                rule: rule@,
            }),
    {
        StructureViolation {
            path,
            violation_type: ViolationType::DeniedFile { pattern },
            triggering_rule_pattern: rule,
        }
    }

    /// A directory outside the directory allowlist of `rule`.
    pub fn disallowed_directory(path: String, rule: String) -> (r: Self)
        ensures
            r@ == (ViolationView {
                path: path@,
                kind: ViolationKind::DisallowedDirectory,
                rule: rule@,
            }),
    {
        StructureViolation {
            path,
            violation_type: ViolationType::DisallowedDirectory,
            triggering_rule_pattern: rule,
        }
    }

    /// A directory denied by `pattern` of `rule`.
    pub fn denied_directory(path: String, rule: String, pattern: String) -> (r: Self)
        ensures
            r@ == (ViolationView {
                path: path@,
                kind: ViolationKind::DeniedDirectory(pattern@),
                rule: rule@,
            }),
    {
        StructureViolation {
            path,
            violation_type: ViolationType::DeniedDirectory { pattern },
            triggering_rule_pattern: rule,
        }
    }

    /// A file name that does not match `expected_pattern`, the naming convention of `rule`.
    pub fn naming_convention(path: String, rule: String, expected_pattern: String) -> (r: Self)
        ensures
            r@ == (ViolationView {
                path: path@,
                kind: ViolationKind::NamingConvention(expected_pattern@),
                rule: rule@,
            }),
    {
        StructureViolation {
            path,
            violation_type: ViolationType::NamingConvention { expected_pattern },
            triggering_rule_pattern: rule,
        }
    }
}

} // verus!
