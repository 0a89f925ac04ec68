//! From the text of a configuration file to the record types generated for
//! it: the format is settled, the text is parsed, and the document is
//! synthesised.

use crate::error::{ErrorModel, GenerateError};
use crate::parse::{parse_content, parsed};
use crate::schema::{GeneratedModule, ModuleModel, Visibility, VisibilityModel};
use crate::synth::{can_synthesize, module_of, synthesize};
use vstd::prelude::*;
use vstd::string::*;

verus! {

/// The format tag to parse a file with: the one given explicitly, as it
/// stands; without one, the extension of the file's name; without either,
/// the empty tag, which no parser accepts.
pub open spec fn format_tag(explicit: Option<Seq<char>>, extension: Option<Seq<char>>) -> Seq<
    char,
> {
    match explicit {
        Some(tag) => tag,
        None => match extension {
            Some(tag) => tag,
            None => Seq::empty(),
        },
    }
}

/// Settles the format tag from the explicit one, if any, and the extension
/// of the file's name, if it has one.
pub fn resolve_format(explicit: Option<&str>, extension: Option<&str>) -> (r: String)
    ensures
        r@ == format_tag(
            match explicit {
                Some(tag) => Some(tag@),
                None => None,
            },
            match extension {
                Some(tag) => Some(tag@),
                None => None,
            },
        ),
{
    match explicit {
        Some(tag) => String::from_str(tag),
        None => match extension {
            Some(tag) => String::from_str(tag),
            None => String::new(),
        },
    }
}

/// Calls `std::path::Path::extension` on the path and hands back the
/// extension if it is valid Unicode. What counts as the file's name depends
/// on the platform's path syntax, so nothing is promised of the outcome.
#[verifier::external_body]
fn path_extension(file_path: &str) -> (r: Option<String>) {
    match std::path::Path::new(file_path).extension() {
        Some(extension) => extension.to_str().map(String::from),
        None => None,
    }
}

/// Settles the format tag for the file at `file_path`: the explicit tag if
/// there is one, else the extension of the file's name, else the empty tag.
pub fn format_for(file_path: &str, explicit: Option<&str>) -> (r: String)
    ensures
        explicit matches Some(tag) ==> r@ == tag@,
{
    match explicit {
        Some(_) => resolve_format(explicit, None),
        None => {
            let extension = path_extension(file_path);
            match &extension {
                Some(tag) => resolve_format(None, Some(tag.as_str())),
                None => resolve_format(None, None),
            }
        },
    }
}

/// What is generated from the text `content` of a file of format `format`
/// for a type called `name`: the record types of the parsed document, or the
/// reason why there are none.
pub open spec fn generated(
    content: Seq<char>,
    format: Seq<char>,
    name: Seq<char>,
    vis: VisibilityModel,
) -> Result<ModuleModel, ErrorModel> {
    match parsed(content, format) {
        Ok(tree) => if can_synthesize(tree, name) {
            Ok(module_of(tree, name, vis))
        } else {
            Err(ErrorModel::mixed_array())
        },
        Err(e) => Err(e),
    }
}

/// Generates the record types for the configuration text `content`, read as
/// `format`. The type of the document itself is called `struct_name`, and
/// every generated type has the visibility `vis`.
///
/// On any failure nothing is generated: the error says whether the format
/// is unsupported, the content malformed, or a type not inferable.
pub fn generate(content: &str, format: &str, struct_name: &str, vis: &Visibility) -> (r: Result<
    GeneratedModule,
    GenerateError,
>)
    ensures
        match r {
            Ok(module) => generated(content@, format@, struct_name@, vis@) == Ok::<
                ModuleModel,
                ErrorModel,
            >(module@),
            Err(e) => generated(content@, format@, struct_name@, vis@) == Err::<
                ModuleModel,
                ErrorModel,
            >(e@),
        },
{
    match parse_content(content, format) {
        Ok(root) => synthesize(&root, struct_name, vis),
        Err(e) => Err(e),
    }
}

} // verus!
