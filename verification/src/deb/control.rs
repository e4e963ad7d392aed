//! The Debian `control` file.
//!
//! `Installed-Size` must be present or apt reports nothing; `Section` must be in the current
//! list; a description body is folded with a leading space per line and ` .` for blank lines.

use vstd::prelude::*;

use crate::digits::{decimal, decimal_wide};
use crate::plan::{size_kib, BuildPlan, BuildPlanView};
use crate::strings::{
    bare, blank, end_lines, lines, lines_of, trim, trim_end, trimmed, trimmed_end,
    trimming_takes_the_blanks, unlines, views, views_push,
};

verus! {

/// `misc` is in the current section list.
pub const DEFAULT_SECTION: &'static str = "misc";

pub const DEFAULT_PRIORITY: &'static str = "optional";

/// A field line.
pub open spec fn field(key: Seq<char>, value: Seq<char>) -> Seq<char> {
    key + ": "@ + value
}

/// The extended description of a package whose manifest gives none, folded by hand under eighty
/// columns.
pub open spec fn stock_body(package_name: Seq<char>) -> Seq<Seq<char>> {
    seq![
        " This package installs the "@ + package_name + " application"@,
        " together with the service integration for the target's"@,
        " init system. Add a longer `description` to the project"@,
        " manifest to replace this text."@,
    ]
}

/// A body line: indented one space, and ` .` where it would be blank.
pub open spec fn folded(line: Seq<char>) -> Seq<char> {
    if trimmed_end(line).len() == 0 {
        " ."@
    } else {
        " "@ + trimmed_end(line)
    }
}

/// The description's lines: the synopsis on the field line, then the body, folded.
pub open spec fn description_lines(p: BuildPlanView) -> Seq<Seq<char>> {
    let d = p.identity.description;
    seq![field("Description"@, d.synopsis)] + (if trimmed(d.body).len() == 0 {
        stock_body(p.identity.package_name)
    } else {
        lines_of(d.body).map_values(|line: Seq<char>| folded(line))
    })
}

/// One line where there is a value, none where there is not.
pub open spec fn optional_field(key: Seq<char>, value: Option<Seq<char>>) -> Seq<Seq<char>> {
    match value {
        Some(v) => seq![field(key, v)],
        None => Seq::empty(),
    }
}

/// What `Depends` says, left out where it would be empty.
pub open spec fn depends_value(dependencies: Option<Seq<char>>) -> Option<Seq<char>> {
    match dependencies {
        Some(text) => if trimmed(text).len() == 0 {
            None
        } else {
            Some(trimmed(text))
        },
        None => None,
    }
}

/// The fields before the description, in the order `dpkg-deb` emits them.
pub open spec fn head_lines(p: BuildPlanView, section: Option<Seq<char>>) -> Seq<Seq<char>> {
    let id = p.identity;
    seq![
        field("Package"@, id.package_name),
        field("Version"@, id.version_deb),
        field("Architecture"@, id.architecture.deb_spelling()),
        field("Maintainer"@, id.maintainer),
        field("Installed-Size"@, decimal(size_kib(p.files))),
    ] + optional_field("Homepage"@, id.homepage) + seq![
        field(
            "Section"@,
            match section {
                Some(s) => s,
                None => DEFAULT_SECTION@,
            },
        ),
        field("Priority"@, DEFAULT_PRIORITY@),
    ] + optional_field("Depends"@, depends_value(id.dependencies))
}

/// The control file, as lines.
pub open spec fn control_lines(p: BuildPlanView, section: Option<Seq<char>>) -> Seq<Seq<char>> {
    head_lines(p, section) + description_lines(p)
}

/// Adds a field line.
fn add_field(out: &mut Vec<String>, key: &str, value: &str)
    ensures
        views(final(out)@) == views(old(out)@).push(field(key@, value@)),
{
    let mut line = key.to_owned();
    line.append(": ");
    line.append(value);
    proof {
        views_push(out@, line);
    }
    out.push(line);
}

/// Adds a line as it is.
fn add_line(out: &mut Vec<String>, line: String)
    ensures
        views(final(out)@) == views(old(out)@).push(line@),
{
    proof {
        views_push(out@, line);
    }
    out.push(line);
}

/// Synopsis on the field line; body lines indented one space; a blank body line becomes ` .`,
/// or the parser treats it as the end of the paragraph.
fn description_field(plan: &BuildPlan, out: &mut Vec<String>)
    ensures
        views(final(out)@) == views(old(out)@) + description_lines(plan@),
{
    let ghost before = views(out@);
    let description = &plan.identity.description;
    add_field(out, "Description", description.synopsis.as_str());
    if trim(description.body.as_str()).as_str().is_empty() {
        let mut first = " This package installs the ".to_owned();
        first.append(plan.identity.package_name.as_str());
        first.append(" application");
        add_line(out, first);
        add_line(out, " together with the service integration for the target's".to_owned());
        add_line(out, " init system. Add a longer `description` to the project".to_owned());
        add_line(out, " manifest to replace this text.".to_owned());
        assert(views(out@) =~= before + description_lines(plan@));
        return;
    }
    let body = lines(description.body.as_str());
    let ghost all = lines_of(plan@.identity.description.body);
    let ghost folds = all.map_values(|line: Seq<char>| folded(line));
    let ghost head = before.push(field("Description"@, plan@.identity.description.synopsis));
    let mut i: usize = 0;
    assert(views(out@) =~= head + folds.take(0));
    while i < body.len()
        invariant
            i <= body@.len(),
            views(body@) == all,
            folds == all.map_values(|line: Seq<char>| folded(line)),
            views(out@) == head + folds.take(i as int),
        decreases body@.len() - i,
    {
        assert(all[i as int] == body@[i as int]@);
        let text = trim_end(body[i].as_str());
        let line = if text.as_str().is_empty() {
            " .".to_owned()
        } else {
            let mut line = " ".to_owned();
            line.append(text.as_str());
            line
        };
        assert(line@ == folds[i as int]);
        add_line(out, line);
        assert(head + folds.take(i + 1) =~= (head + folds.take(i as int)).push(folds[i as int]));
        i = i + 1;
    }
    assert(folds.take(i as int) =~= folds);
    assert(views(out@) =~= before + description_lines(plan@));
}

/// Renders the control file, fields in the order `dpkg-deb` emits them.
pub fn render(plan: &BuildPlan, section: Option<&str>) -> (s: String)
    ensures
        s@ == unlines(control_lines(plan@, crate::error::opt(section))),
{
    let identity = &plan.identity;
    let mut out: Vec<String> = Vec::new();
    assert(views(out@) =~= Seq::empty());
    add_field(&mut out, "Package", identity.package_name.as_str());
    add_field(&mut out, "Version", identity.version_deb.as_str());
    add_field(&mut out, "Architecture", identity.architecture.deb());
    add_field(&mut out, "Maintainer", identity.maintainer.as_str());
    add_field(&mut out, "Installed-Size", decimal_wide(plan.installed_size_kib()).as_str());
    match &identity.homepage {
        Some(homepage) => {
            add_field(&mut out, "Homepage", homepage.as_str());
        },
        None => {},
    }
    match section {
        Some(name) => {
            add_field(&mut out, "Section", name);
        },
        None => {
            add_field(&mut out, "Section", DEFAULT_SECTION);
        },
    }
    add_field(&mut out, "Priority", DEFAULT_PRIORITY);
    match &identity.dependencies {
        Some(depends) => {
            let text = trim(depends.as_str());
            if !text.as_str().is_empty() {
                add_field(&mut out, "Depends", text.as_str());
            }
        },
        None => {},
    }
    assert(views(out@) =~= head_lines(plan@, crate::error::opt(section)));
    description_field(plan, &mut out);
    end_lines(&out)
}

// ---- laws -----------------------------------------------------------------------------

/// The dependencies are written trimmed, and left out where there is nothing in them.
pub proof fn dependencies_are_written_trimmed(lead: Seq<char>, list: Seq<char>, tail: Seq<char>)
    requires
        blank(lead),
        bare(list),
        blank(tail),
    ensures
        depends_value(None) is None,
        list.len() > 0 ==> depends_value(Some(lead + list + tail)) == Some(list),
        list.len() == 0 ==> depends_value(Some(lead + list + tail)) is None,
{
    trimming_takes_the_blanks(lead, list, tail);
}

/// The extended description is the body, line by line, each indented and a blank one written as a
/// dot; without a body it is a stock text that names the package.
pub proof fn the_description_is_folded_line_by_line(p: BuildPlanView, i: int)
    ensures
        ({
            let d = p.identity.description;
            let lines = description_lines(p);
            &&& lines[0] == "Description"@ + ": "@ + d.synopsis
            &&& trimmed(d.body).len() > 0 ==> lines.len() == lines_of(d.body).len() + 1 && (0 <= i
                < lines_of(d.body).len() ==> lines[i + 1] == (if trimmed_end(
                lines_of(d.body)[i],
            ).len() == 0 {
                " ."@
            } else {
                " "@ + trimmed_end(lines_of(d.body)[i])
            }))
            &&& trimmed(d.body).len() == 0 ==> lines.len() == 5 && lines[1]
                == " This package installs the "@ + p.identity.package_name + " application"@
        }),
{
}

/// A package goes into the section it is given, or into `misc`, and is always optional.
pub proof fn packages_are_optional(p: BuildPlanView, section: Option<Seq<char>>)
    ensures
        head_lines(p, section).contains(
            "Section"@ + ": "@ + (match section {
                Some(s) => s,
                None => "misc"@,
            }),
        ),
        head_lines(p, section).contains("Priority"@ + ": "@ + "optional"@),
{
    let at = 5 + optional_field("Homepage"@, p.identity.homepage).len() as int;
    assert(head_lines(p, section)[at] == field(
        "Section"@,
        match section {
            Some(s) => s,
            None => DEFAULT_SECTION@,
        },
    ));
    assert(head_lines(p, section)[at + 1] == field("Priority"@, DEFAULT_PRIORITY@));
}

} // verus!
