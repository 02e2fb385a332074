//! Semantic validation of manifests and the combined validation summary.

use vstd::prelude::*;
use vstd::utf8::encode_utf8;

use crate::domain::{ValidationError, ValidationStatus, ValidationSummary};
use crate::manifest::{ExtensionManifest, ManifestValidation, warnings_view};
use crate::text::{decimal_spec, str_eq, trim, trim_spec, u64_to_decimal, strings_view};
use crate::time::Timestamp;

verus! {

/// Longest name accepted, in characters.
pub const MAX_NAME_LEN: usize = 80;

/// Longest description accepted, in characters.
pub const MAX_DESCRIPTION_LEN: usize = 512;

/// Longest category accepted, in UTF-8 bytes.
pub const MAX_CATEGORY_LEN: usize = 32;

/// A validation finding as (code, message, path).
pub open spec fn finding_view(e: ValidationError) -> (Seq<char>, Seq<char>, Seq<char>) {
    (e.code@, e.message@, e.path@)
}

pub open spec fn findings_view(es: Seq<ValidationError>) -> Seq<(Seq<char>, Seq<char>, Seq<char>)> {
    es.map_values(|e: ValidationError| finding_view(e))
}

/// Findings for categories longer than `MAX_CATEGORY_LEN` bytes, with their index.
pub open spec fn category_findings_spec(cats: Seq<Seq<char>>) -> Seq<(Seq<char>, Seq<char>, Seq<char>)>
    decreases cats.len(),
{
    if cats.len() == 0 {
        Seq::empty()
    } else {
        let prev = category_findings_spec(cats.drop_last());
        let c = cats.last();
        if encode_utf8(c).len() as usize > 32 {
            prev.push((
                "semantic::category_length"@,
                "Category '"@ + c + "' exceeds maximum length of 32 characters"@,
                "/categories/"@ + decimal_spec((cats.len() - 1) as nat),
            ))
        } else {
            prev
        }
    }
}

/// The semantic findings for a manifest, in the order they are checked:
/// name length, description length, author, categories present, category
/// lengths, repository scheme.
pub open spec fn semantic_findings_spec(
    name: Seq<char>,
    description: Seq<char>,
    author: Option<Seq<char>>,
    categories: Seq<Seq<char>>,
    scheme: Seq<char>,
) -> Seq<(Seq<char>, Seq<char>, Seq<char>)> {
    let f1: Seq<(Seq<char>, Seq<char>, Seq<char>)> = if trim_spec(name).len() == 0 || trim_spec(name).len() > 80 {
        seq![("semantic::name"@, "Name must be 1-80 characters (got "@ + decimal_spec(name.len()) + ")"@, "/name"@)]
    } else {
        Seq::empty()
    };
    let f2: Seq<(Seq<char>, Seq<char>, Seq<char>)> = if description.len() == 0 || description.len() > 512 {
        seq![(
            "semantic::description"@,
            "Description must be 1-512 characters (got "@ + decimal_spec(description.len()) + ")"@,
            "/description"@,
        )]
    } else {
        Seq::empty()
    };
    let f3: Seq<(Seq<char>, Seq<char>, Seq<char>)> = if author matches Some(a) && trim_spec(a).len() > 0 {
        Seq::empty()
    } else {
        seq![("semantic::author"@, "Author is required for provenance."@, "/author"@)]
    };
    let f4: Seq<(Seq<char>, Seq<char>, Seq<char>)> = if categories.len() == 0 {
        seq![("semantic::categories"@, "At least one category is required for discovery."@, "/categories"@)]
    } else {
        Seq::empty()
    };
    let f5: Seq<(Seq<char>, Seq<char>, Seq<char>)> = if scheme != "https"@ {
        seq![("semantic::repository_scheme"@, "Repository URLs must use HTTPS."@, "/repository"@)]
    } else {
        Seq::empty()
    };
    f1 + f2 + f3 + f4 + category_findings_spec(categories) + f5
}

pub open spec fn manifest_findings_spec(m: ExtensionManifest) -> Seq<(Seq<char>, Seq<char>, Seq<char>)> {
    semantic_findings_spec(
        m.name@,
        m.description@,
        crate::locator::opt_string_view(m.author),
        strings_view(m.categories@),
        m.repository@.scheme,
    )
}

fn push_finding(errors: &mut Vec<ValidationError>, code: &str, message: &str, path: &str)
    ensures
        findings_view(final(errors)@) == findings_view(old(errors)@).push((code@, message@, path@)),
{
    errors.push(ValidationError::new(code, message, path));
    proof {
        assert(findings_view(errors@) =~= findings_view(old(errors)@).push((code@, message@, path@)));
    }
}

/// Findings for over-long categories.
fn category_findings(categories: &Vec<String>, errors: &mut Vec<ValidationError>)
    ensures
        findings_view(final(errors)@) == findings_view(old(errors)@) + category_findings_spec(strings_view(categories@)),
{
    let ghost cats = strings_view(categories@);
    let mut i: usize = 0;
    assert(findings_view(errors@) =~= findings_view(old(errors)@) + category_findings_spec(cats.subrange(0, 0)));
    while i < categories.len()
        invariant
            0 <= i <= categories@.len(),
            cats == strings_view(categories@),
            findings_view(errors@) == findings_view(old(errors)@) + category_findings_spec(cats.subrange(0, i as int)),
        decreases categories@.len() - i,
    {
        let c = &categories[i];
        proof {
            assert(cats.subrange(0, i + 1).drop_last() =~= cats.subrange(0, i as int));
            assert(cats.subrange(0, i + 1).last() == c@);
        }
        if c.as_str().len() > MAX_CATEGORY_LEN {
            let mut msg = String::from_str("Category '");
            msg.append(c.as_str());
            msg.append("' exceeds maximum length of 32 characters");
            let idx = u64_to_decimal(i as u64);
            let mut path = String::from_str("/categories/");
            path.append(idx.as_str());
            push_finding(errors, "semantic::category_length", msg.as_str(), path.as_str());
            proof {
                assert(findings_view(errors@) =~= findings_view(old(errors)@) + category_findings_spec(cats.subrange(0, i + 1)));
            }
        } else {
            assert(encode_utf8(c@).len() as usize <= 32);
            assert(category_findings_spec(cats.subrange(0, i + 1)) == category_findings_spec(cats.subrange(0, i as int)));
        }
        i = i + 1;
    }
    assert(cats.subrange(0, categories@.len() as int) =~= cats);
}

/// The semantic findings for a manifest.
pub fn semantic_issues(manifest: &ExtensionManifest) -> (r: Vec<ValidationError>)
    ensures
        findings_view(r@) == manifest_findings_spec(*manifest),
{
    let mut errors: Vec<ValidationError> = Vec::new();
    assert(findings_view(errors@) =~= Seq::empty());
    let trimmed_name = trim(manifest.name.as_str());
    let name_chars = crate::text::chars_of(manifest.name.as_str());
    let trimmed_chars = crate::text::chars_of(trimmed_name.as_str());
    if trimmed_chars.len() == 0 || trimmed_chars.len() > MAX_NAME_LEN {
        let mut msg = String::from_str("Name must be 1-80 characters (got ");
        let n = u64_to_decimal(name_chars.len() as u64);
        msg.append(n.as_str());
        msg.append(")");
        push_finding(&mut errors, "semantic::name", msg.as_str(), "/name");
    }
    let desc_chars = crate::text::chars_of(manifest.description.as_str());
    if desc_chars.len() == 0 || desc_chars.len() > MAX_DESCRIPTION_LEN {
        let mut msg = String::from_str("Description must be 1-512 characters (got ");
        let n = u64_to_decimal(desc_chars.len() as u64);
        msg.append(n.as_str());
        msg.append(")");
        push_finding(&mut errors, "semantic::description", msg.as_str(), "/description");
    }
    let author_missing = match &manifest.author {
        Some(a) => {
            let t = trim(a.as_str());
            t.as_str().is_empty()
        },
        None => true,
    };
    if author_missing {
        push_finding(&mut errors, "semantic::author", "Author is required for provenance.", "/author");
    }
    if manifest.categories.len() == 0 {
        push_finding(&mut errors, "semantic::categories", "At least one category is required for discovery.", "/categories");
    }
    category_findings(&manifest.categories, &mut errors);
    if !str_eq(manifest.repository.scheme(), "https") {
        push_finding(&mut errors, "semantic::repository_scheme", "Repository URLs must use HTTPS.", "/repository");
    }
    proof {
        assert(findings_view(errors@) =~= manifest_findings_spec(*manifest));
    }
    errors
}

/// Schema findings rendered as validation findings: code `schema::<field>`,
/// the warning's message, path `/<field>`.
pub open spec fn schema_findings_spec(ws: Seq<(Seq<char>, Seq<char>)>) -> Seq<(Seq<char>, Seq<char>, Seq<char>)> {
    ws.map_values(|w: (Seq<char>, Seq<char>)| ("schema::"@ + w.0, w.1, "/"@ + w.0))
}

/// Combines schema warnings and semantic checks into a summary checked at `now`.
/// The schema stage passes when there was no warning (else it is a warning);
/// the semantic stage fails when there is a semantic finding (else it passes).
pub fn build_validation_summary_at(
    manifest: &ExtensionManifest,
    schema_validation: &ManifestValidation,
    now: Timestamp,
) -> (r: ValidationSummary)
    ensures
        findings_view(r.errors@) == schema_findings_spec(warnings_view(schema_validation.warnings@))
            + manifest_findings_spec(*manifest),
        r.schema_status == (if schema_validation.warnings@.len() == 0 {
            ValidationStatus::Passed
        } else {
            ValidationStatus::Warning
        }),
        r.semantic_status == (if manifest_findings_spec(*manifest).len() > 0 {
            ValidationStatus::Failed
        } else {
            ValidationStatus::Passed
        }),
        r.last_checked == now,
{
    let ghost ws = warnings_view(schema_validation.warnings@);
    let mut issues: Vec<ValidationError> = Vec::new();
    let mut i: usize = 0;
    while i < schema_validation.warnings.len()
        invariant
            0 <= i <= schema_validation.warnings@.len(),
            ws == warnings_view(schema_validation.warnings@),
            findings_view(issues@) == schema_findings_spec(ws.subrange(0, i as int)),
        decreases schema_validation.warnings@.len() - i,
    {
        let w = &schema_validation.warnings[i];
        let mut code = String::from_str("schema::");
        code.append(w.field.as_str());
        let mut path = String::from_str("/");
        path.append(w.field.as_str());
        push_finding(&mut issues, code.as_str(), w.message.as_str(), path.as_str());
        proof {
            assert(findings_view(issues@) =~= schema_findings_spec(ws.subrange(0, i + 1)));
        }
        i = i + 1;
    }
    assert(ws.subrange(0, schema_validation.warnings@.len() as int) =~= ws);
    let semantic = semantic_issues(manifest);
    let semantic_count = semantic.len();
    let ghost before = findings_view(issues@);
    let mut semantic_mut = semantic;
    issues.append(&mut semantic_mut);
    proof {
        assert(findings_view(issues@) =~= before + manifest_findings_spec(*manifest));
    }
    let schema_status = if schema_validation.is_clean() {
        ValidationStatus::Passed
    } else {
        ValidationStatus::Warning
    };
    let semantic_status = if semantic_count > 0 {
        ValidationStatus::Failed
    } else {
        ValidationStatus::Passed
    };
    ValidationSummary::new(schema_status, semantic_status, issues, now)
}

/// Combines schema warnings and semantic checks into a summary checked now.
/// The clock reading is not stated; everything else is as `build_validation_summary_at`.
pub fn build_validation_summary(manifest: &ExtensionManifest, schema_validation: &ManifestValidation) -> (r: ValidationSummary)
    ensures
        findings_view(r.errors@) == schema_findings_spec(warnings_view(schema_validation.warnings@))
            + manifest_findings_spec(*manifest),
        r.schema_status == (if schema_validation.warnings@.len() == 0 {
            ValidationStatus::Passed
        } else {
            ValidationStatus::Warning
        }),
        r.semantic_status == (if manifest_findings_spec(*manifest).len() > 0 {
            ValidationStatus::Failed
        } else {
            ValidationStatus::Passed
        }),
{
    build_validation_summary_at(manifest, schema_validation, Timestamp::now())
}

} // verus!
