//! The tool that loads the instructions of a skill.
use vstd::prelude::*;
use vstd::string::*;
use crate::json::{Json, JsonView};
use crate::text;

verus! {

/// What the tool is asked for.
#[derive(Debug)]
pub enum SkillRequest {
    /// The directory of the skills.
    List,
    /// One skill: its instructions, or what is known of it without them.
    Load { skill_name: String, metadata_only: bool },
}

/// Whether the arguments ask for the directory.
pub open spec fn asks_for_list(args: JsonView) -> bool {
    args.text_at("action"@) == Some("list"@)
}

/// Whether this is what the tool is asked for: one skill, in full, where nothing else is said.
pub open spec fn is_request(args: JsonView, r: Result<SkillRequest, String>) -> bool {
    if asks_for_list(args) {
        r == Ok::<SkillRequest, String>(SkillRequest::List)
    } else {
        match args.text_at("skill_name"@) {
            None => r matches Err(e) && e@
                == "Missing 'skill_name' when action is load (default)."@,
            Some(name) => r matches Ok(SkillRequest::Load { skill_name, metadata_only })
                && skill_name@ == name && metadata_only == (args.text_at("detail"@) == Some(
                "metadata"@,
            )),
        }
    }
}

/// Reads what the tool is asked for: one skill, in full, where nothing else is said.
pub fn skill_request(args: &Json) -> (r: Result<SkillRequest, String>)
    ensures
        is_request(args@, r),
{
    let list: bool = match args.text_at("action") {
        Some(action) => text::same(action, "list"),
        None => false,
    };
    if list {
        return Ok(SkillRequest::List);
    }
    match args.text_at("skill_name") {
        None => Err("Missing 'skill_name' when action is load (default).".to_owned()),
        Some(name) => {
            let metadata_only: bool = match args.text_at("detail") {
                Some(detail) => text::same(detail, "metadata"),
                None => false,
            };
            Ok(SkillRequest::Load { skill_name: name.to_owned(), metadata_only })
        },
    }
}

/// What follows a look for a skill.
#[derive(Debug)]
pub enum SkillStep {
    /// The skills are read anew, and the skill is looked for once more.
    Rescan,
    /// The tool ends with the result.
    Finish(Result<String, String>),
}

/// What follows a look for a skill: one that is not found at first is looked for once more.
pub open spec fn lookup_step(found: Result<String, String>, rescanned: bool) -> SkillStep {
    if found is Ok || rescanned {
        SkillStep::Finish(found)
    } else {
        SkillStep::Rescan
    }
}

/// Goes on after a look for a skill. A skill that is not found at first may have been added
/// since the skills were read.
pub fn after_lookup(found: Result<String, String>, rescanned: bool) -> (r: SkillStep)
    ensures
        r == lookup_step(found, rescanned),
{
    if found.is_ok() || rescanned {
        SkillStep::Finish(found)
    } else {
        SkillStep::Rescan
    }
}

// ---------------------------------------------------------------------------
// Laws
// ---------------------------------------------------------------------------

/// The directory is given where it is asked for; else the skill that is named is, without its
/// instructions only where that is asked for, and a request that names none is refused.
pub proof fn law_skill_is_given_as_asked(
    args: JsonView,
    r: Result<SkillRequest, String>,
    name: Seq<char>,
)
    requires
        is_request(args, r),
    ensures
        args.text_at("action"@) == Some("list"@) ==> (r matches Ok(SkillRequest::List)),
        args.text_at("action"@) != Some("list"@) && args.text_at("skill_name"@) == Some(name) ==> (r
            matches Ok(SkillRequest::Load { skill_name, metadata_only }) && skill_name@ == name && (
        metadata_only <==> args.text_at("detail"@) == Some("metadata"@))),
        args.text_at("action"@) != Some("list"@) && args.text_at("skill_name"@) is None ==> r is Err,
        r is Err ==> args.text_at("skill_name"@) is None,
{
}

/// A skill that was found is given; one that was not is looked for once more, and no more than
/// once.
pub proof fn law_skills_are_looked_for_twice(found: Result<String, String>, rescanned: bool)
    ensures
        found is Ok ==> lookup_step(found, rescanned) == SkillStep::Finish(found),
        found is Err && !rescanned ==> lookup_step(found, rescanned) is Rescan,
        lookup_step(found, true) == SkillStep::Finish(found),
{
}

} // verus!
