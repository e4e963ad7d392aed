//! Answering "what does this tool support?" from the structures the build path reads, so that the
//! answers cannot drift from the behaviour.

use vstd::prelude::*;

use crate::catalogue::{looked_up, names_of};
use crate::cli::Cli;
use crate::npm::{setting_keys, setting_names};
use crate::report::{links_of, Failure, Reporter};
use crate::strings::{join, joined, sorted_members, unlines, views};
use crate::template::{self, builtin_table, canonical_names, owned, Variables};

verus! {

/// The manifest keys that override configuration.
pub fn json_overrides() -> (r: Vec<&'static str>)
    ensures
        views(r@) == setting_names(),
{
    setting_keys()
}

/// The variables templates may use.
pub fn template_variables() -> (r: Vec<&'static str>)
    ensures
        views(r@) == canonical_names(),
{
    Variables::vocabulary()
}

/// The names of the built-in templates, ascending.
pub open spec fn template_names() -> Seq<Seq<char>> {
    sorted_members(names_of(builtin_table()).to_set())
}

pub fn templates() -> (r: Vec<&'static str>)
    ensures
        views(r@) == template_names(),
{
    template::builtin_names()
}

/// The source of a built-in template, or the names of those that exist.
pub open spec fn template_source(name: Seq<char>) -> core::result::Result<
    Seq<char>,
    Seq<Seq<char>>,
> {
    match looked_up("template"@, builtin_table(), name) {
        Ok(text) => Ok(text),
        Err(e) => Err(
            seq![
                "no template named `"@ + name + "`; available: "@ + joined(
                    template_names(),
                    ", "@,
                ),
            ] + links_of(e),
        ),
    }
}

/// The source of one built-in template; an unknown name fails listing the ones that exist.
pub fn cat_template(name: &str) -> (r: core::result::Result<&'static str, Failure>)
    ensures
        match r {
            Ok(text) => template_source(name@) == Ok::<Seq<char>, Seq<Seq<char>>>(text@),
            Err(f) => template_source(name@) == Err::<Seq<char>, Seq<Seq<char>>>(f@),
        },
{
    match template::builtin(name) {
        Ok(text) => Ok(text),
        Err(e) => {
            let mut message = "no template named `".to_owned();
            message.append(name);
            message.append("`; available: ");
            let known = owned(&templates());
            message.append(join(&known, ", ").as_str());
            Err(Failure::of(&e).context(message))
        },
    }
}

/// `text` where `condition` holds, and nothing where it does not.
pub open spec fn when(condition: bool, text: Seq<char>) -> Seq<char> {
    if condition {
        text
    } else {
        Seq::empty()
    }
}

/// What the tool says of itself before any template is printed.
pub open spec fn answered(cli: Cli, readme: Seq<char>, changelog: Seq<char>) -> Seq<char> {
    when(cli.list_json_overrides, unlines(setting_names())) + when(
        cli.list_templates,
        unlines(template_names()),
    ) + when(cli.list_template_variables, unlines(canonical_names())) + when(
        cli.show_readme,
        readme,
    ) + when(cli.show_changelog, changelog)
}

/// The names, each ended by `\n`.
fn listed(names: &Vec<&'static str>) -> (s: String)
    ensures
        s@ == unlines(views(names@)),
{
    let ghost all = views(names@);
    let mut s = String::new();
    assert(all.take(0) =~= Seq::empty());
    assert(s@ =~= unlines(all.take(0)));
    let mut i: usize = 0;
    while i < names.len()
        invariant
            i <= names@.len(),
            all == views(names@),
            s@ == unlines(all.take(i as int)),
        decreases names@.len() - i,
    {
        s.append(names[i]);
        s.append("\n");
        proof {
            assert(all.take(i + 1).drop_last() =~= all.take(i as int));
            assert(all.take(i + 1).last() == names@[i as int]@);
        }
        i = i + 1;
    }
    assert(all.take(i as int) =~= all);
    s
}

/// Answers what was asked, and returns the exit status. What could be answered is printed even
/// where a template asked for does not exist.
pub fn answer(cli: &Cli, readme: &str, changelog: &str, reporter: &mut Reporter) -> (code: i32)
    ensures
        final(reporter).verbosity == old(reporter).verbosity,
        match cli.cat_template {
            None => {
                &&& code == 0
                &&& final(reporter).err == old(reporter).err
                &&& final(reporter).out@ == old(reporter).out@ + answered(
                    *cli,
                    readme@,
                    changelog@,
                )
            },
            Some(name) => match template_source(name@) {
                Ok(text) => {
                    &&& code == 0
                    &&& final(reporter).err == old(reporter).err
                    &&& final(reporter).out@ == old(reporter).out@ + answered(
                        *cli,
                        readme@,
                        changelog@,
                    ) + text
                },
                Err(links) => {
                    &&& code == 1
                    &&& final(reporter).err@ == old(reporter).err@ + ("error: "@ + links[0]) + "\n"@
                    &&& final(reporter).out@ == old(reporter).out@ + answered(
                        *cli,
                        readme@,
                        changelog@,
                    )
                },
            },
        },
{
    let mut said = String::new();
    if cli.list_json_overrides {
        said.append(listed(&json_overrides()).as_str());
    }
    assert(said@ =~= when(cli.list_json_overrides, unlines(setting_names())));
    let ghost so_far = said@;
    if cli.list_templates {
        said.append(listed(&templates()).as_str());
    }
    assert(said@ =~= so_far + when(cli.list_templates, unlines(template_names())));
    let ghost so_far = said@;
    if cli.list_template_variables {
        said.append(listed(&template_variables()).as_str());
    }
    assert(said@ =~= so_far + when(cli.list_template_variables, unlines(canonical_names())));
    let ghost so_far = said@;
    if cli.show_readme {
        said.append(readme);
    }
    assert(said@ =~= so_far + when(cli.show_readme, readme@));
    let ghost so_far = said@;
    if cli.show_changelog {
        said.append(changelog);
    }
    assert(said@ =~= so_far + when(cli.show_changelog, changelog@));
    assert(said@ == answered(*cli, readme@, changelog@));
    reporter.out.append(said.as_str());
    match &cli.cat_template {
        None => 0,
        Some(name) => match cat_template(name.as_str()) {
            Ok(text) => {
                reporter.out.append(text);
                0
            },
            Err(f) => {
                let mut line = "error: ".to_owned();
                line.append(f.text());
                reporter.error_line(line.as_str());
                1
            },
        },
    }
}

// ---- laws -----------------------------------------------------------------------------

/// Each question is answered with its own listing: one asked alone gets that and nothing else,
/// and where nothing was asked nothing is answered.
pub proof fn each_question_gets_its_answer(cli: Cli, readme: Seq<char>, changelog: Seq<char>)
    ensures
        ({
            let said = answered(cli, readme, changelog);
            let keys = cli.list_json_overrides;
            let templates = cli.list_templates;
            let variables = cli.list_template_variables;
            &&& keys && !templates && !variables && !cli.show_readme && !cli.show_changelog ==> said
                == unlines(setting_names())
            &&& !keys && templates && !variables && !cli.show_readme && !cli.show_changelog ==> said
                == unlines(template_names())
            &&& !keys && !templates && variables && !cli.show_readme && !cli.show_changelog ==> said
                == unlines(canonical_names())
            &&& !keys && !templates && !variables && cli.show_readme && !cli.show_changelog ==> said
                == readme
            &&& !keys && !templates && !variables && !cli.show_readme && cli.show_changelog ==> said
                == changelog
            &&& !keys && !templates && !variables && !cli.show_readme && !cli.show_changelog
                ==> said.len() == 0
        }),
{
    let said = answered(cli, readme, changelog);
    let none = Seq::<char>::empty();
    assert(none + none =~= none);
    assert(none + readme =~= readme);
    assert(none + changelog =~= changelog);
    assert(readme + none =~= readme);
    assert(unlines(setting_names()) + none =~= unlines(setting_names()));
    assert(unlines(template_names()) + none =~= unlines(template_names()));
    assert(unlines(canonical_names()) + none =~= unlines(canonical_names()));
    assert(none + unlines(template_names()) =~= unlines(template_names()));
    assert(none + unlines(canonical_names()) =~= unlines(canonical_names()));
}

/// Nothing is answered that was not asked: where the command line asks nothing, there is no
/// listing to print and no template to show.
pub proof fn only_questions_are_answered(cli: Cli, readme: Seq<char>, changelog: Seq<char>)
    ensures
        answered(cli, readme, changelog).len() > 0 ==> cli.asks(),
        cli.cat_template is Some ==> cli.asks(),
        cli.asks() ==> cli.cat_template is Some || cli.list_json_overrides || cli.list_templates
            || cli.list_template_variables || cli.show_readme || cli.show_changelog,
{
}

} // verus!
