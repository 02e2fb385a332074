//! Extension manifests (`gemini-extension.json`) and their normalization.
//!
//! The manifest's JSON text is decoded into `ManifestFields` by the caller;
//! this module turns those fields into a typed manifest, normalizing tag and
//! category values to kebab-case and collecting warnings instead of failing.

use vstd::prelude::*;

use crate::error::MarketplaceError;
use crate::locator::{Url, url_parse, url_result_view, UrlView};
use crate::text::{
    replace_char, replace_char_spec, str_eq, strings_view, to_lowercase, trim, trim_spec,
    unicode_lowercase,
};
use crate::version::{Version, semver_parse, version_result_view};

verus! {

/// The fields of a manifest document as they appear in its JSON text.
#[derive(Debug, Clone)]
pub struct ManifestFields {
    pub name: String,
    pub display_name: Option<String>,
    pub description: String,
    pub repository: String,
    pub homepage: Option<String>,
    pub documentation: Option<String>,
    pub version: String,
    pub author: Option<String>,
    pub license: Option<String>,
    pub categories: Vec<String>,
    pub tags: Vec<String>,
    pub compatibility: Vec<String>,
    pub readme: Option<String>,
}

/// A parsed and normalized extension manifest.
#[derive(Debug)]
pub struct ExtensionManifest {
    pub name: String,
    pub display_name: Option<String>,
    pub description: String,
    pub repository: Url,
    pub homepage: Option<Url>,
    pub documentation: Option<Url>,
    pub version: Version,
    pub author: Option<String>,
    pub license: Option<String>,
    pub categories: Vec<String>,
    pub tags: Vec<String>,
    pub compatibility: Vec<String>,
    pub readme: Option<String>,
}

/// Warnings collected while reading a manifest.
#[derive(Debug, Default)]
pub struct ManifestValidation {
    pub warnings: Vec<ManifestWarning>,
}

/// One manifest warning: the field and what is wrong with it.
#[derive(Debug)]
pub struct ManifestWarning {
    pub field: String,
    pub message: String,
}

/// A warning as a pair of field and message.
pub open spec fn warning_view(w: ManifestWarning) -> (Seq<char>, Seq<char>) {
    (w.field@, w.message@)
}

pub open spec fn warnings_view(ws: Seq<ManifestWarning>) -> Seq<(Seq<char>, Seq<char>)> {
    ws.map_values(|w: ManifestWarning| warning_view(w))
}

impl ManifestValidation {
    /// Appends a warning about `field`.
    pub fn push(&mut self, field: &str, message: &str)
        ensures
            warnings_view(final(self).warnings@) == warnings_view(old(self).warnings@).push(
                (field@, message@),
            ),
    {
        self.warnings.push(ManifestWarning { field: String::from_str(field), message: String::from_str(message) });
        proof {
            assert(warnings_view(self.warnings@) =~= warnings_view(old(self).warnings@).push((field@, message@)));
        }
    }

    /// Whether no warning was recorded.
    pub fn is_clean(&self) -> (r: bool)
        ensures
            r == (self.warnings@.len() == 0),
    {
        self.warnings.len() == 0
    }
}

/// The kebab-case form of a collection value: trimmed, spaces turned into
/// dashes, lowercased.
pub open spec fn kebab_spec(value: Seq<char>) -> Seq<char> {
    unicode_lowercase(replace_char_spec(trim_spec(value), ' ', '-'))
}

/// The warning recorded when a value had to be normalized.
pub open spec fn normalized_message_spec(trimmed: Seq<char>, normalized: Seq<char>) -> Seq<char> {
    "Value \""@ + trimmed + "\" normalized to \""@ + normalized + "\"; ensure manifest uses kebab-case"@
}

/// The warnings recorded while normalizing `values` of `field`, in order.
pub open spec fn collection_warnings_spec(field: Seq<char>, values: Seq<Seq<char>>) -> Seq<(Seq<char>, Seq<char>)>
    decreases values.len(),
{
    if values.len() == 0 {
        Seq::empty()
    } else {
        let prev = collection_warnings_spec(field, values.drop_last());
        let v = values.last();
        if kebab_spec(v) != trim_spec(v) {
            prev.push((field, normalized_message_spec(trim_spec(v), kebab_spec(v))))
        } else {
            prev
        }
    }
}

/// Normalizes every value of a collection to kebab-case, recording a warning
/// for each value that changed.
pub fn normalize_collection(field: &str, values: &Vec<String>, validation: &mut ManifestValidation) -> (r: Vec<String>)
    ensures
        strings_view(r@) == strings_view(values@).map_values(|v: Seq<char>| kebab_spec(v)),
        warnings_view(final(validation).warnings@) == warnings_view(old(validation).warnings@)
            + collection_warnings_spec(field@, strings_view(values@)),
{
    let ghost vs = strings_view(values@);
    let mut out: Vec<String> = Vec::new();
    let mut i: usize = 0;
    assert(warnings_view(validation.warnings@) =~= warnings_view(old(validation).warnings@)
        + collection_warnings_spec(field@, vs.subrange(0, 0)));
    while i < values.len()
        invariant
            0 <= i <= values@.len(),
            vs == strings_view(values@),
            strings_view(out@) == vs.subrange(0, i as int).map_values(|v: Seq<char>| kebab_spec(v)),
            warnings_view(validation.warnings@) == warnings_view(old(validation).warnings@)
                + collection_warnings_spec(field@, vs.subrange(0, i as int)),
            out@.len() == i,
        decreases values@.len() - i,
    {
        let trimmed = trim(values[i].as_str());
        let dashed = replace_char(trimmed.as_str(), ' ', '-');
        let normalized = to_lowercase(dashed.as_str());
        proof {
            let pre = vs.subrange(0, i as int);
            let post = vs.subrange(0, i + 1);
            assert(post.drop_last() =~= pre);
            assert(post.last() == values@[i as int]@);
        }
        if !str_eq(normalized.as_str(), trimmed.as_str()) {
            let mut msg = String::from_str("Value \"");
            msg.append(trimmed.as_str());
            msg.append("\" normalized to \"");
            msg.append(normalized.as_str());
            msg.append("\"; ensure manifest uses kebab-case");
            validation.push(field, msg.as_str());
        }
        assert(normalized@ == kebab_spec(vs[i as int]));
        let ghost before = strings_view(out@);
        out.push(normalized);
        proof {
            assert forall|k: int| 0 <= k < i implies #[trigger] strings_view(out@)[k] == before[k] by {}
            assert(strings_view(out@)[i as int] == kebab_spec(vs[i as int]));
            assert(strings_view(out@) =~= vs.subrange(0, i + 1).map_values(|v: Seq<char>| kebab_spec(v)));
        }
        i = i + 1;
    }
    assert(vs.subrange(0, values@.len() as int) =~= vs);
    out
}

/// The warnings for missing or empty required fields of a normalized manifest.
pub open spec fn required_field_warnings_spec(
    name: Seq<char>,
    description: Seq<char>,
    author: Option<Seq<char>>,
    categories_empty: bool,
) -> Seq<(Seq<char>, Seq<char>)> {
    let w1: Seq<(Seq<char>, Seq<char>)> = if trim_spec(name).len() == 0 {
        seq![("name"@, "Extension name must be provided"@)]
    } else {
        Seq::empty()
    };
    let w2: Seq<(Seq<char>, Seq<char>)> = if trim_spec(description).len() == 0 {
        seq![("description"@, "Extension description must not be empty"@)]
    } else {
        Seq::empty()
    };
    let w3: Seq<(Seq<char>, Seq<char>)> = if author matches Some(a) && a.len() > 0 {
        Seq::empty()
    } else {
        seq![("author"@, "Author or maintainer should be specified to aid discovery"@)]
    };
    let w4: Seq<(Seq<char>, Seq<char>)> = if categories_empty {
        seq![("categories"@, "At least one category should be provided for filtering"@)]
    } else {
        Seq::empty()
    };
    w1 + w2 + w3 + w4
}

/// The outcome of reading an optional URL field: absent or blank means no URL.
pub open spec fn optional_url_spec(value: Option<Seq<char>>) -> Result<Option<UrlView>, Seq<char>> {
    match value {
        None => Ok(None),
        Some(s) => if trim_spec(s).len() == 0 {
            Ok(None)
        } else {
            match url_parse(s) {
                Ok(u) => Ok(Some(u)),
                Err(e) => Err("invalid URL "@ + s + ": "@ + e),
            }
        },
    }
}

/// The reason given when a manifest field cannot be decoded.
pub open spec fn invalid_json_reason_spec(detail: Seq<char>) -> Seq<char> {
    "invalid JSON: "@ + detail
}

/// The first decoding problem of the URL and version fields, if any.
pub open spec fn field_error_spec(f: ManifestFields) -> Option<Seq<char>> {
    match url_parse(f.repository@) {
        Err(e) => Some("invalid URL "@ + f.repository@ + ": "@ + e),
        Ok(_) => match optional_url_spec(crate::locator::opt_string_view(f.homepage)) {
            Err(e) => Some(e),
            Ok(_) => match optional_url_spec(crate::locator::opt_string_view(f.documentation)) {
                Err(e) => Some(e),
                Ok(_) => match semver_parse(f.version@) {
                    Err(e) => Some("invalid SemVer "@ + f.version@ + ": "@ + e),
                    Ok(_) => None,
                },
            },
        },
    }
}

pub open spec fn opt_url_view(u: Option<Url>) -> Option<UrlView> {
    match u {
        Some(x) => Some(x@),
        None => None,
    }
}

/// Reads an optional URL field; absent or blank values mean no URL.
fn parse_optional_url(value: &Option<String>) -> (r: Result<Option<Url>, String>)
    ensures
        match (r, optional_url_spec(crate::locator::opt_string_view(*value))) {
            (Ok(u), Ok(v)) => opt_url_view(u) == v,
            (Err(e), Err(m)) => e@ == m,
            _ => false,
        },
{
    match value {
        None => Ok(None),
        Some(s) => {
            let t = trim(s.as_str());
            if t.as_str().is_empty() {
                Ok(None)
            } else {
                match Url::parse(s.as_str()) {
                    Ok(u) => Ok(Some(u)),
                    Err(e) => {
                        let mut m = String::from_str("invalid URL ");
                        m.append(s.as_str());
                        m.append(": ");
                        m.append(e.as_str());
                        Err(m)
                    },
                }
            }
        },
    }
}

/// The error returned for a manifest whose text cannot be decoded.
pub fn invalid_json(source: &str, detail: &str) -> (r: MarketplaceError)
    ensures
        r matches MarketplaceError::InvalidManifest { repository, reason } && repository@ == source@
            && reason@ == invalid_json_reason_spec(detail@),
{
    let mut reason = String::from_str("invalid JSON: ");
    reason.append(detail);
    MarketplaceError::InvalidManifest { repository: String::from_str(source), reason }
}

/// `m` is the manifest the decoded `fields` describe: the same texts, the
/// URLs and version parsed, categories and tags in kebab-case.
pub open spec fn manifest_of_fields(fields: ManifestFields, m: ExtensionManifest) -> bool {
    &&& m.name@ == fields.name@
    &&& m.display_name == fields.display_name
    &&& m.description@ == fields.description@
    &&& url_parse(fields.repository@) == Ok::<UrlView, Seq<char>>(m.repository@)
    &&& optional_url_spec(crate::locator::opt_string_view(fields.homepage)) == Ok::<Option<UrlView>, Seq<char>>(opt_url_view(m.homepage))
    &&& optional_url_spec(crate::locator::opt_string_view(fields.documentation)) == Ok::<Option<UrlView>, Seq<char>>(opt_url_view(m.documentation))
    &&& semver_parse(fields.version@) == Ok::<Seq<char>, Seq<char>>(m.version@)
    &&& m.author == fields.author
    &&& m.license == fields.license
    &&& strings_view(m.categories@) == strings_view(fields.categories@).map_values(|x: Seq<char>| kebab_spec(x))
    &&& strings_view(m.tags@) == strings_view(fields.tags@).map_values(|x: Seq<char>| kebab_spec(x))
    &&& m.compatibility == fields.compatibility
    &&& m.readme == fields.readme
}

impl ExtensionManifest {
    /// Builds a manifest from its decoded fields. The repository must parse as a
    /// URL, homepage and documentation must parse when present and not blank,
    /// and the version must parse as SemVer; otherwise the manifest is invalid.
    /// Categories and tags are normalized to kebab-case, and warnings are
    /// recorded for normalized values and for missing required fields.
    pub fn from_fields(fields: ManifestFields, source: &str) -> (r: Result<(ExtensionManifest, ManifestValidation), MarketplaceError>)
        ensures
            r is Err <==> field_error_spec(fields) is Some,
            r matches Err(MarketplaceError::InvalidManifest { repository, reason }) ==> repository@ == source@
                && reason@ == invalid_json_reason_spec(field_error_spec(fields)->0),
            r matches Err(e) ==> e is InvalidManifest,
            r matches Ok((m, v)) ==> {
                &&& manifest_of_fields(fields, m)
                &&& warnings_view(v.warnings@) == collection_warnings_spec("categories"@, strings_view(fields.categories@))
                    + collection_warnings_spec("tags"@, strings_view(fields.tags@))
                    + required_field_warnings_spec(
                        fields.name@,
                        fields.description@,
                        crate::locator::opt_string_view(fields.author),
                        fields.categories@.len() == 0,
                    )
            },
    {
        let repository = match Url::parse(fields.repository.as_str()) {
            Ok(u) => u,
            Err(e) => {
                let mut m = String::from_str("invalid URL ");
                m.append(fields.repository.as_str());
                m.append(": ");
                m.append(e.as_str());
                return Err(invalid_json(source, m.as_str()));
            },
        };
        let homepage = match parse_optional_url(&fields.homepage) {
            Ok(u) => u,
            Err(m) => return Err(invalid_json(source, m.as_str())),
        };
        let documentation = match parse_optional_url(&fields.documentation) {
            Ok(u) => u,
            Err(m) => return Err(invalid_json(source, m.as_str())),
        };
        let version = match Version::parse(fields.version.as_str()) {
            Ok(v) => v,
            Err(e) => {
                let mut m = String::from_str("invalid SemVer ");
                m.append(fields.version.as_str());
                m.append(": ");
                m.append(e.as_str());
                return Err(invalid_json(source, m.as_str()));
            },
        };
        let mut validation = ManifestValidation { warnings: Vec::new() };
        assert(warnings_view(validation.warnings@) =~= Seq::empty());
        let categories = normalize_collection("categories", &fields.categories, &mut validation);
        let tags = normalize_collection("tags", &fields.tags, &mut validation);
        assert(categories@.len() == strings_view(categories@).len());
        assert(categories@.len() == fields.categories@.len());
        let manifest = ExtensionManifest {
            name: fields.name,
            display_name: fields.display_name,
            description: fields.description,
            repository,
            homepage,
            documentation,
            version,
            author: fields.author,
            license: fields.license,
            categories,
            tags,
            compatibility: fields.compatibility,
            readme: fields.readme,
        };
        manifest.check_required_fields(&mut validation);
        proof {
            assert(warnings_view(validation.warnings@) =~= collection_warnings_spec("categories"@, strings_view(fields.categories@))
                + collection_warnings_spec("tags"@, strings_view(fields.tags@))
                + required_field_warnings_spec(
                    fields.name@,
                    fields.description@,
                    crate::locator::opt_string_view(fields.author),
                    fields.categories@.len() == 0,
                ));
        }
        Ok((manifest, validation))
    }

    /// Records warnings for a blank name or description, a missing or empty
    /// author, and an empty category list.
    pub fn check_required_fields(&self, validation: &mut ManifestValidation)
        ensures
            warnings_view(final(validation).warnings@) == warnings_view(old(validation).warnings@)
                + required_field_warnings_spec(
                    self.name@,
                    self.description@,
                    crate::locator::opt_string_view(self.author),
                    self.categories@.len() == 0,
                ),
    {
        let ghost start = warnings_view(validation.warnings@);
        let name = trim(self.name.as_str());
        if name.as_str().is_empty() {
            validation.push("name", "Extension name must be provided");
        }
        let description = trim(self.description.as_str());
        if description.as_str().is_empty() {
            validation.push("description", "Extension description must not be empty");
        }
        let missing_author = match &self.author {
            Some(a) => a.as_str().is_empty(),
            None => true,
        };
        if missing_author {
            validation.push("author", "Author or maintainer should be specified to aid discovery");
        }
        if self.categories.len() == 0 {
            validation.push("categories", "At least one category should be provided for filtering");
        }
        proof {
            assert(warnings_view(validation.warnings@) =~= start + required_field_warnings_spec(
                self.name@,
                self.description@,
                crate::locator::opt_string_view(self.author),
                self.categories@.len() == 0,
            ));
        }
    }
}

} // verus!
