//! The registry of file extensions: what each operation reads and writes.

use crate::text::same_text;
use vstd::prelude::*;

verus! {

/// What an operation does with files of an extension.
#[derive(Clone, Copy, Debug, PartialEq, Eq, Structural)]
pub enum Role {
    /// Such files are read as a source.
    Readable,
    /// Such files are written as a target.
    Writable,
    /// Such files are both read and written.
    Both,
}

/// The supported conversions, one per pair of formats.
#[derive(Clone, Copy, Debug, PartialEq, Eq, Structural)]
pub enum Operation {
    /// Comma-separated tables to the columnar binary format.
    TableToParquet,
    /// Point clouds to the binary point-cloud format.
    PointcloudConvert,
}

/// One line of the registry.
#[derive(Debug, PartialEq, Eq)]
pub struct ExtensionRule {
    /// The extension, without its dot.
    pub extension: String,
    /// What the operation does with it.
    pub role: Role,
}

/// The mathematical value of a rule.
pub struct RuleModel {
    pub extension: Seq<char>,
    pub role: Role,
}

impl View for ExtensionRule {
    type V = RuleModel;

    open spec fn view(&self) -> RuleModel {
        RuleModel { extension: self.extension@, role: self.role }
    }
}

/// The values of a list of rules.
pub open spec fn rules_of(rules: Seq<ExtensionRule>) -> Seq<RuleModel> {
    Seq::new(rules.len(), |i: int| rules[i]@)
}

/// The rules of each operation.
pub open spec fn registry_of(op: Operation) -> Seq<RuleModel> {
    match op {
        Operation::TableToParquet => seq![
            RuleModel { extension: "csv"@, role: Role::Readable },
            RuleModel { extension: "parquet"@, role: Role::Writable },
        ],
        Operation::PointcloudConvert => seq![
            RuleModel { extension: "las"@, role: Role::Both },
            RuleModel { extension: "laz"@, role: Role::Both },
            RuleModel { extension: "pcd"@, role: Role::Readable },
        ],
    }
}

/// The role that the first rule for `ext` gives.
pub open spec fn find_role(rules: Seq<RuleModel>, ext: Seq<char>) -> Option<Role>
    decreases rules.len(),
{
    if rules.len() == 0 {
        None
    } else if rules[0].extension == ext {
        Some(rules[0].role)
    } else {
        find_role(rules.skip(1), ext)
    }
}

/// The role of `ext` in `op`, if `op` knows it.
pub open spec fn role_of(op: Operation, ext: Seq<char>) -> Option<Role> {
    find_role(registry_of(op), ext)
}

/// Whether `op` knows the extension at all.
pub open spec fn supported(op: Operation, ext: Seq<char>) -> bool {
    role_of(op, ext) is Some
}

/// Whether `op` reads files of this extension.
pub open spec fn readable(op: Operation, ext: Seq<char>) -> bool {
    role_of(op, ext) == Some(Role::Readable) || role_of(op, ext) == Some(Role::Both)
}

/// Whether `op` writes files of this extension.
pub open spec fn writable(op: Operation, ext: Seq<char>) -> bool {
    role_of(op, ext) == Some(Role::Writable) || role_of(op, ext) == Some(Role::Both)
}

/// The extension that `op` puts on what it writes, where it mandates one.
pub open spec fn canonical_extension_of(op: Operation) -> Option<Seq<char>> {
    match op {
        Operation::TableToParquet => Some("parquet"@),
        Operation::PointcloudConvert => None,
    }
}

/// Makes one rule.
fn rule(extension: &str, role: Role) -> (r: ExtensionRule)
    ensures
        r@ == (RuleModel { extension: extension@, role }),
{
    ExtensionRule { extension: String::from_str(extension), role }
}

/// The rules of `op`.
pub fn registry(op: Operation) -> (r: Vec<ExtensionRule>)
    ensures
        rules_of(r@) == registry_of(op),
{
    let mut rules: Vec<ExtensionRule> = Vec::new();
    match op {
        Operation::TableToParquet => {
            rules.push(rule("csv", Role::Readable));
            rules.push(rule("parquet", Role::Writable));
        },
        Operation::PointcloudConvert => {
            rules.push(rule("las", Role::Both));
            rules.push(rule("laz", Role::Both));
            rules.push(rule("pcd", Role::Readable));
        },
    }
    assert(rules_of(rules@) =~= registry_of(op));
    rules
}

/// The role that the first rule for `ext` in `rules` gives.
pub fn role_in(rules: &Vec<ExtensionRule>, ext: &str) -> (r: Option<Role>)
    ensures
        r == find_role(rules_of(rules@), ext@),
{
    let mut i: usize = 0;
    assert(rules_of(rules@).skip(0) == rules_of(rules@));
    while i < rules.len()
        invariant
            i <= rules.len(),
            find_role(rules_of(rules@), ext@) == find_role(rules_of(rules@).skip(i as int), ext@),
        decreases rules.len() - i,
    {
        let ghost rest = rules_of(rules@).skip(i as int);
        assert(rest[0] == rules@[i as int]@);
        assert(rest.skip(1) == rules_of(rules@).skip(i + 1));
        if same_text(rules[i].extension.as_str(), ext) {
            return Some(rules[i].role);
        }
        i += 1;
    }
    None
}

/// The role of `ext` in `op`, if `op` knows it.
pub fn lookup(op: Operation, ext: &str) -> (r: Option<Role>)
    ensures
        r == role_of(op, ext@),
{
    let rules = registry(op);
    role_in(&rules, ext)
}

/// Whether `op` knows the extension at all.
pub fn is_supported(op: Operation, ext: &str) -> (r: bool)
    ensures
        r == supported(op, ext@),
{
    lookup(op, ext).is_some()
}

/// Whether `op` reads files of this extension.
pub fn can_read(op: Operation, ext: &str) -> (r: bool)
    ensures
        r == readable(op, ext@),
{
    match lookup(op, ext) {
        Some(Role::Readable) => true,
        Some(Role::Both) => true,
        _ => false,
    }
}

/// Whether `op` writes files of this extension.
pub fn can_write(op: Operation, ext: &str) -> (r: bool)
    ensures
        r == writable(op, ext@),
{
    match lookup(op, ext) {
        Some(Role::Writable) => true,
        Some(Role::Both) => true,
        _ => false,
    }
}

/// The extension that `op` puts on what it writes, where it mandates one.
pub fn canonical_extension(op: Operation) -> (r: Option<&'static str>)
    ensures
        match r {
            Some(ext) => canonical_extension_of(op) == Some(ext@),
            None => canonical_extension_of(op) is None,
        },
{
    match op {
        Operation::TableToParquet => Some("parquet"),
        Operation::PointcloudConvert => None,
    }
}

} // verus!
