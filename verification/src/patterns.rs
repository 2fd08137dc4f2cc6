use vstd::prelude::*;

verus! {

/// One detection rule: an identifier, a regular-expression text applied
/// case-insensitively to each line, and a human-readable description.
pub struct Pattern {
    pub id: u32,
    pub pattern: &'static str,
    pub description: &'static str,
}

/// The fixed table of rules scanned for in Python sources, constructed once
/// at startup and shared read-only by every scanner.
pub fn python_sub_patterns() -> (r: Vec<Pattern>)
    ensures
        r@.len() == 4,
        r@[0].id == 1 && r@[0].pattern@ == "^.*django_settings_module.*"@,
        r@[1].id == 2 && r@[1].pattern@ == "^.*django_secret_key.*$"@,
        r@[2].id == 3 && r@[2].pattern@ == "^.*password.*$"@,
        r@[3].id == 4 && r@[3].pattern@ == "^.*secret.*$"@,
        r@[0].description@ == "django settings path"@,
        r@[1].description@ == "django secret key"@,
        r@[2].description@ == "password found"@,
        r@[3].description@ == "secret found"@,
{
    let mut v: Vec<Pattern> = Vec::new();
    v.push(Pattern {
        id: 1,
        pattern: "^.*django_settings_module.*",
        description: "django settings path",
    });
    v.push(Pattern { id: 2, pattern: "^.*django_secret_key.*$", description: "django secret key" });
    v.push(Pattern { id: 3, pattern: "^.*password.*$", description: "password found" });
    v.push(Pattern { id: 4, pattern: "^.*secret.*$", description: "secret found" });
    v
}

} // verus!
