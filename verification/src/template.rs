//! Rendering the files a package generates: `{{ name }}` substitution and nothing else.
//!
//! There is no expression language. An unknown placeholder is an error that names it, since
//! the alternative is shipping it inside a script that runs as root.

use vstd::prelude::*;

use crate::catalogue::{
    look_up, looked_up, names, names_are_looked_up_whole, names_of, table_of,
};
use crate::distance::{edits, nearest, nearest_is_nearest, nearest_name};
use crate::error::{opt, outcome, Error, ErrorView, Result};
use crate::plan::description_of;
use crate::resolve::{ResolvedConfig, ResolvedConfigView};
use crate::strings::{
    bare, blank, byte_len, bytes_in, chars_of, clean_line, find_at, first_at, first_at_bounds,
    join, joined, lines, lines_of, lines_of_unlines, listed, lists, sorted_members, split_whole,
    stands_at, string_of, trim, trimmed, trimming_takes_the_blanks, unlines, views, views_push,
};
use crate::strmap::StrMap;
use crate::templates::{
    DEFAULT, EXECUTABLE, SYSTEMD_SERVICE, SYSV_INIT, TMPFILES_CONF, UPSTART_CONF,
};
use crate::text::{quoted, shell_double_quoted};

verus! {

/// How much of an unterminated placeholder to quote back, in characters.
pub const CONTEXT_CHARS: usize = 32;

/// The values a template may reference.
#[derive(Debug)]
pub struct Variables {
    values: StrMap<String>,
}

impl View for Variables {
    type V = Map<Seq<char>, Seq<char>>;

    closed spec fn view(&self) -> Map<Seq<char>, Seq<char>> {
        Map::new(|k: Seq<char>| self.values@.dom().contains(k), |k: Seq<char>| self.values@[k]@)
    }
}

/// Every variable a configuration defines, current spellings only.
pub open spec fn canonical_names() -> Seq<Seq<char>> {
    seq![
        "package_name"@,
        "package_version"@,
        "package_description"@,
        "package_description_shell"@,
        "package_maintainer"@,
        "package_maintainer_shell"@,
        "package_dependencies"@,
        "package_architecture"@,
        "executable_name"@,
        "install_dir"@,
        "user"@,
        "group"@,
        "init"@,
        "install_strategy"@,
        "install_binary"@,
        "install_command"@,
        "no_rebuild"@,
        "generator_version"@,
        "cli_entrypoint"@,
        "daemon_entrypoint"@,
    ]
}

/// The first line of a description, trimmed; empty when there is none.
pub open spec fn synopsis_of(description: Seq<char>) -> Seq<char> {
    let all = lines_of(description);
    if all.len() == 0 {
        Seq::empty()
    } else {
        trimmed(all[0])
    }
}

pub open spec fn or_empty(o: Option<Seq<char>>) -> Seq<char> {
    match o {
        Some(s) => s,
        None => Seq::empty(),
    }
}

/// The full vocabulary for a configuration.
pub open spec fn config_variables(
    c: ResolvedConfigView,
    generator_version: Seq<char>,
    version: Seq<char>,
    architecture: Seq<char>,
) -> Map<Seq<char>, Seq<char>> {
    Map::<Seq<char>, Seq<char>>::empty().insert("package_name"@, c.package_name).insert(
        "package_version"@,
        version,
    ).insert("package_description"@, synopsis_of(c.description)).insert(
        "package_description_shell"@,
        quoted(synopsis_of(c.description)),
    ).insert("package_maintainer"@, c.maintainer).insert(
        "package_maintainer_shell"@,
        quoted(c.maintainer),
    ).insert("package_dependencies"@, or_empty(c.dependencies)).insert(
        "package_architecture"@,
        architecture,
    ).insert("executable_name"@, c.executable_name).insert("install_dir"@, c.install_dir).insert(
        "user"@,
        c.user,
    ).insert("group"@, c.group).insert("init"@, c.init.spelling()).insert(
        "install_strategy"@,
        c.install_strategy.spelling(),
    ).insert("install_binary"@, c.install_binary).insert("install_command"@, c.install_command).insert(
        "no_rebuild"@,
        "0"@,
    ).insert("generator_version"@, generator_version).insert(
        "cli_entrypoint"@,
        or_empty(c.cli_entrypoint),
    ).insert("daemon_entrypoint"@, or_empty(c.daemon_entrypoint))
}

/// The names in ascending order, each once.
pub fn sorted_names(all: &Vec<&'static str>) -> (r: Vec<&'static str>)
    ensures
        views(r@) == sorted_members(views(all@).to_set()),
        lists(views(r@), views(all@).to_set()),
{
    let mut map: StrMap<&'static str> = StrMap::new();
    let mut i: usize = 0;
    let ghost names = views(all@);
    while i < all.len()
        invariant
            i <= all@.len(),
            names == views(all@),
            forall|k: Seq<char>| #[trigger]
                map@.dom().contains(k) <==> names.take(i as int).contains(k),
            forall|k: Seq<char>| #[trigger] map@.dom().contains(k) ==> map@[k]@ == k,
        decreases all@.len() - i,
    {
        proof {
            let x = all@[i as int]@;
            assert(names.take(i + 1) =~= names.take(i as int).push(x));
            assert forall|k: Seq<char>| #[trigger]
                names.take(i + 1).contains(k) <==> names.take(i as int).contains(k) || k == x by {
                if names.take(i as int).contains(k) {
                    let m = names.take(i as int).index_of(k);
                    assert(names.take(i + 1)[m] == k);
                }
                assert(names.take(i + 1)[i as int] == x);
                if names.take(i + 1).contains(k) && k != x {
                    let m = names.take(i + 1).index_of(k);
                    assert(names.take(i as int)[m] == k);
                }
            }
        }
        map.insert(all[i].to_owned(), all[i]);
        i = i + 1;
    }
    assert(names.take(i as int) =~= names);
    let count: usize = map.len();
    let ghost done = map;
    let r = map.into_values();
    proof {
        assert(count == done.keys().len());
        assert(views(r@) =~= done.keys()) by {
            assert forall|j: int| 0 <= j < r@.len() implies views(r@)[j] == done.keys()[j] by {
                assert(done@[done.keys()[j]] == done.values()[j]);
            }
        }
        assert forall|k: Seq<char>| #[trigger]
            views(r@).contains(k) <==> names.to_set().contains(k) by {
            assert(done.keys().contains(k) <==> done@.dom().contains(k));
        }
        listed(views(r@), names.to_set());
    }
    r
}

impl Variables {
    pub fn new() -> (v: Self)
        ensures
            v@ == Map::<Seq<char>, Seq<char>>::empty(),
    {
        let v = Variables { values: StrMap::new() };
        assert(v@ =~= Map::empty());
        v
    }

    /// Adds a variable.
    pub fn with(self, name: &str, value: &str) -> (v: Self)
        ensures
            v@ == self@.insert(name@, value@),
    {
        let mut values = self.values;
        let ghost before = values@;
        let text = value.to_owned();
        values.insert(name.to_owned(), text);
        let v = Variables { values };
        assert(v@ =~= self@.insert(name@, value@));
        v
    }

    /// Looks a variable up.
    pub fn resolve(&self, name: &str) -> (r: Option<&str>)
        ensures
            match r {
                Some(s) => self@.dom().contains(name@) && s@ == self@[name@],
                None => !self@.dom().contains(name@),
            },
    {
        match self.values.get(name) {
            Some(s) => Some(s.as_str()),
            None => None,
        }
    }

    /// Every current spelling, sorted.
    pub fn names(&self) -> (r: Vec<&str>)
        ensures
            views(r@) == sorted_members(self@.dom()),
            lists(views(r@), self@.dom()),
    {
        let count: usize = self.values.len();
        let mut out: Vec<&str> = Vec::new();
        let mut i: usize = 0;
        let ghost keys = self.values.keys();
        assert(views(out@) =~= keys.take(0));
        while i < count
            invariant
                i <= count,
                keys == self.values.keys(),
                count == keys.len(),
                views(out@) == keys.take(i as int),
            decreases count - i,
        {
            let name = self.values.key_at(i);
            proof {
                views_push(out@, name);
                assert(keys.take(i + 1) =~= keys.take(i as int).push(name@));
            }
            out.push(name);
            i = i + 1;
        }
        proof {
            assert(keys.take(i as int) =~= keys);
            assert(self@.dom() =~= self.values@.dom());
            assert forall|k: Seq<char>| #[trigger]
                keys.contains(k) <==> self@.dom().contains(k) by {
                assert(self.values@.dom().contains(k) <==> keys.contains(k));
            }
        }
        out
    }

    /// Every accepted spelling, sorted, each paired with its current spelling.
    pub fn all_spellings(&self) -> (r: Vec<(&str, &str)>)
        ensures
            r@.len() == sorted_members(self@.dom()).len(),
            forall|i: int|
                0 <= i < r@.len() ==> (#[trigger] r@[i]).0@ == sorted_members(self@.dom())[i]
                    && r@[i].1@ == sorted_members(self@.dom())[i],
    {
        let names = self.names();
        let ghost all = sorted_members(self@.dom());
        let mut out: Vec<(&str, &str)> = Vec::new();
        let mut i: usize = 0;
        while i < names.len()
            invariant
                i <= names@.len(),
                views(names@) == all,
                out@.len() == i,
                forall|j: int|
                    0 <= j < i ==> (#[trigger] out@[j]).0@ == all[j] && out@[j].1@ == all[j],
            decreases names@.len() - i,
        {
            assert(all[i as int] == names@[i as int]@);
            out.push((names[i], names[i]));
            i = i + 1;
        }
        out
    }

    /// Every variable a template may use, current spellings only.
    pub fn vocabulary() -> (r: Vec<&'static str>)
        ensures
            views(r@) == canonical_names(),
    {
        let r: Vec<&'static str> = vec![
            "package_name",
            "package_version",
            "package_description",
            "package_description_shell",
            "package_maintainer",
            "package_maintainer_shell",
            "package_dependencies",
            "package_architecture",
            "executable_name",
            "install_dir",
            "user",
            "group",
            "init",
            "install_strategy",
            "install_binary",
            "install_command",
            "no_rebuild",
            "generator_version",
            "cli_entrypoint",
            "daemon_entrypoint",
        ];
        assert(views(r@) =~= canonical_names());
        r
    }

    /// Every accepted spelling, as `(spelling, canonical)`, sorted.
    pub fn accepted_spellings() -> (r: Vec<(&'static str, &'static str)>)
        ensures
            Seq::new(r@.len(), |i: int| r@[i].0@) == sorted_members(canonical_names().to_set()),
            forall|i: int| 0 <= i < r@.len() ==> (#[trigger] r@[i]).0@ == r@[i].1@,
    {
        let all = Self::vocabulary();
        let names = sorted_names(&all);
        let mut out: Vec<(&'static str, &'static str)> = Vec::new();
        let mut i: usize = 0;
        while i < names.len()
            invariant
                i <= names@.len(),
                out@.len() == i,
                forall|j: int|
                    0 <= j < i ==> (#[trigger] out@[j]).0@ == names@[j]@ && out@[j].1@
                        == names@[j]@,
            decreases names@.len() - i,
        {
            out.push((names[i], names[i]));
            i = i + 1;
        }
        assert(Seq::new(out@.len(), |i: int| out@[i].0@) =~= views(names@));
        out
    }

    /// The full vocabulary for a resolved configuration.
    ///
    /// `version` and `architecture` come from the caller because only the backend knows which
    /// format's spelling it is writing. The description is the synopsis only: every template
    /// context is one line. The `_shell` forms go inside a double-quoted shell string.
    pub fn for_config(
        config: &ResolvedConfig,
        generator_version: &str,
        version: &str,
        architecture: &str,
    ) -> (v: Self)
        ensures
            v@ == config_variables(config@, generator_version@, version@, architecture@),
    {
        let all = lines(config.description.as_str());
        let synopsis = if all.len() == 0 {
            let empty = String::new();
            assert(views(all@).len() == 0);
            empty
        } else {
            assert(views(all@)[0] == all@[0]@);
            trim(all[0].as_str())
        };
        assert(synopsis@ =~= synopsis_of(config@.description));
        let dependencies = match &config.dependencies {
            Some(text) => text.clone(),
            None => String::new(),
        };
        let cli = match &config.cli_entrypoint {
            Some(entry) => entry.as_str().to_owned(),
            None => String::new(),
        };
        let daemon = match &config.daemon_entrypoint {
            Some(entry) => entry.as_str().to_owned(),
            None => String::new(),
        };
        Self::new().with("package_name", config.package_name.as_str()).with(
            "package_version",
            version,
        ).with("package_description", synopsis.as_str()).with(
            "package_description_shell",
            shell_double_quoted(synopsis.as_str()).as_str(),
        ).with("package_maintainer", config.maintainer.as_str()).with(
            "package_maintainer_shell",
            shell_double_quoted(config.maintainer.as_str()).as_str(),
        ).with("package_dependencies", dependencies.as_str()).with(
            "package_architecture",
            architecture,
        ).with("executable_name", config.executable_name.as_str()).with(
            "install_dir",
            config.install_dir.as_str(),
        ).with("user", config.user.as_str()).with("group", config.group.as_str()).with(
            "init",
            config.init.name(),
        ).with("install_strategy", config.install_strategy.name()).with(
            "install_binary",
            config.install_binary.as_str(),
        ).with("install_command", config.install_command.as_str()).with("no_rebuild", "0").with(
            "generator_version",
            generator_version,
        ).with("cli_entrypoint", cli.as_str()).with("daemon_entrypoint", daemon.as_str())
    }

    /// The known name closest to `unknown`, when one is close enough to be worth suggesting.
    fn closest(&self, unknown: &str) -> (r: Option<&str>)
        ensures
            opt(r) == suggestion(sorted_members(self@.dom()), unknown@),
    {
        let length = bytes_in(unknown);
        let third: u128 = length / 3;
        let budget: u128 = if third < 1 {
            1
        } else {
            third
        };
        let names = self.names();
        match nearest_name(&names, unknown, budget) {
            Some(k) => {
                assert(views(names@)[k as int] == names@[k as int]@);
                Some(names[k])
            },
            None => None,
        }
    }
}

/// How far a suggestion may be: roughly a third of the name's length catches transpositions
/// and single slips without proposing something unrelated.
pub open spec fn suggestion_budget(unknown: Seq<char>) -> nat {
    if byte_len(unknown) / 3 < 1 {
        1
    } else {
        byte_len(unknown) / 3
    }
}

/// The closest of `names`, if one is within the budget.
pub open spec fn suggestion(names: Seq<Seq<char>>, unknown: Seq<char>) -> Option<Seq<char>> {
    match nearest(names, unknown, suggestion_budget(unknown), names.len() as int) {
        Some(k) => Some(names[k]),
        None => None,
    }
}

// ---- rendering ------------------------------------------------------------------------

pub open spec fn unterminated(name: Seq<char>, rest: Seq<char>) -> ErrorView {
    let context = if rest.len() > CONTEXT_CHARS {
        rest.take(CONTEXT_CHARS as int)
    } else {
        rest
    };
    ErrorView::Template {
        template: name,
        reason: "unterminated placeholder: `"@ + context + "` is never closed with `}}`"@,
    }
}

pub open spec fn unknown_variable(
    name: Seq<char>,
    variable: Seq<char>,
    names: Seq<Seq<char>>,
) -> ErrorView {
    ErrorView::Template {
        template: name,
        reason: "unknown variable `"@ + variable + "`; "@ + (match suggestion(names, variable) {
            Some(close) => "did you mean `"@ + close + "`?"@,
            None => "known variables: "@ + joined(names, ", "@),
        }),
    }
}

/// What `source`, from `i` on, renders to: text up to a placeholder, the placeholder's value,
/// and what follows it. A value is never looked into.
pub open spec fn rendered_from(
    name: Seq<char>,
    source: Seq<char>,
    values: Map<Seq<char>, Seq<char>>,
    i: int,
) -> core::result::Result<Seq<char>, ErrorView>
    decreases source.len() - i,
    when 0 <= i <= source.len()
    via rendered_from_decreases
{
    match first_at(source, i, "{{"@) {
        None => Ok(source.skip(i)),
        Some(start) => match first_at(source, start + "{{"@.len(), "}}"@) {
            None => Err(unterminated(name, source.skip(start))),
            Some(end) => {
                let variable = trimmed(source.subrange(start + "{{"@.len(), end));
                if variable.len() == 0 {
                    Err(
                        ErrorView::Template {
                            template: name,
                            reason: "empty placeholder `{{ }}`"@,
                        },
                    )
                } else if !values.dom().contains(variable) {
                    Err(unknown_variable(name, variable, sorted_members(values.dom())))
                } else {
                    match rendered_from(name, source, values, end + "}}"@.len()) {
                        Ok(rest) => Ok(source.subrange(i, start) + values[variable] + rest),
                        Err(e) => Err(e),
                    }
                }
            },
        },
    }
}

#[via_fn]
proof fn rendered_from_decreases(
    name: Seq<char>,
    source: Seq<char>,
    values: Map<Seq<char>, Seq<char>>,
    i: int,
) {
    reveal_strlit("{{");
    reveal_strlit("}}");
    first_at_bounds(source, i, "{{"@);
    if first_at(source, i, "{{"@) is Some {
        first_at_bounds(source, first_at(source, i, "{{"@)->0 + "{{"@.len(), "}}"@);
    }
}

/// What a template renders to.
pub open spec fn rendered(
    name: Seq<char>,
    source: Seq<char>,
    values: Map<Seq<char>, Seq<char>>,
) -> core::result::Result<Seq<char>, ErrorView> {
    rendered_from(name, source, values, 0)
}

/// Renders `source`, substituting every placeholder. `name` identifies the template in errors.
pub fn render(name: &str, source: &str, variables: &Variables) -> (r: Result<String>)
    ensures
        outcome(r) == rendered(name@, source@, variables@),
{
    let v = chars_of(source);
    let open = chars_of("{{");
    let close = chars_of("}}");
    let ghost values = variables@;
    let len: usize = v.len();
    let mut out = String::new();
    let mut i: usize = 0;
    proof {
        reveal_strlit("{{");
        reveal_strlit("}}");
        match rendered_from(name@, source@, values, 0) {
            Ok(rest) => {
                assert(Seq::<char>::empty() + rest =~= rest);
            },
            Err(e) => {},
        }
    }
    loop
        invariant
            v@ == source@,
            len == v@.len(),
            open@ == "{{"@,
            close@ == "}}"@,
            open@.len() == 2,
            close@.len() == 2,
            values == variables@,
            i <= len,
            rendered_from(name@, source@, values, 0) == (match rendered_from(
                name@,
                source@,
                values,
                i as int,
            ) {
                Ok(rest) => Ok::<Seq<char>, ErrorView>(out@ + rest),
                Err(e) => Err(e),
            }),
        decreases len - i,
    {
        match find_at(&v, i, &open) {
            None => {
                let tail = string_of(&v, i, len);
                assert(tail@ =~= source@.skip(i as int));
                out.append(tail.as_str());
                return Ok(out);
            },
            Some(start) => {
                proof {
                    first_at_bounds(source@, i as int, "{{"@);
                }
                match find_at(&v, start + 2, &close) {
                    None => {
                        let mut end: usize = len;
                        if len - start > CONTEXT_CHARS {
                            end = start + CONTEXT_CHARS;
                        }
                        let context = string_of(&v, start, end);
                        proof {
                            let rest = source@.skip(start as int);
                            assert(context@ =~= (if rest.len() > CONTEXT_CHARS {
                                rest.take(CONTEXT_CHARS as int)
                            } else {
                                rest
                            }));
                        }
                        let mut reason = "unterminated placeholder: `".to_owned();
                        reason.append(context.as_str());
                        reason.append("` is never closed with `}}`");
                        return Err(Error::Template { template: name.to_owned(), reason });
                    },
                    Some(end) => {
                        proof {
                            first_at_bounds(source@, start + 2, "}}"@);
                        }
                        let inside = string_of(&v, start + 2, end);
                        let variable = trim(inside.as_str());
                        if variable.as_str().is_empty() {
                            return Err(
                                Error::Template {
                                    template: name.to_owned(),
                                    reason: "empty placeholder `{{ }}`".to_owned(),
                                },
                            );
                        }
                        match variables.resolve(variable.as_str()) {
                            None => {
                                let hint = match variables.closest(variable.as_str()) {
                                    Some(close) => {
                                        let mut s = "did you mean `".to_owned();
                                        s.append(close);
                                        s.append("`?");
                                        s
                                    },
                                    None => {
                                        let known = owned(&variables.names());
                                        let mut s = "known variables: ".to_owned();
                                        s.append(join(&known, ", ").as_str());
                                        s
                                    },
                                };
                                let mut reason = "unknown variable `".to_owned();
                                reason.append(variable.as_str());
                                reason.append("`; ");
                                reason.append(hint.as_str());
                                return Err(Error::Template { template: name.to_owned(), reason });
                            },
                            Some(value) => {
                                // Appended as text and never rescanned, so a value that looks
                                // like a placeholder stays literal.
                                let ghost before = out@;
                                let text = string_of(&v, i, start);
                                out.append(text.as_str());
                                out.append(value);
                                proof {
                                    match rendered_from(
                                        name@,
                                        source@,
                                        values,
                                        end + 2,
                                    ) {
                                        Ok(rest) => {
                                            assert(before + (source@.subrange(
                                                i as int,
                                                start as int,
                                            ) + value@ + rest) =~= out@ + rest);
                                        },
                                        Err(e) => {},
                                    }
                                }
                                i = end + 2;
                            },
                        }
                    },
                }
            },
        }
    }
}

/// Owned copies of some names.
pub fn owned(names: &Vec<&str>) -> (r: Vec<String>)
    ensures
        views(r@) == views(names@),
{
    let mut out: Vec<String> = Vec::new();
    let mut i: usize = 0;
    let ghost all = views(names@);
    assert(views(out@) =~= all.take(0));
    while i < names.len()
        invariant
            i <= names@.len(),
            all == views(names@),
            views(out@) == all.take(i as int),
        decreases names@.len() - i,
    {
        let name = names[i].to_owned();
        proof {
            views_push(out@, name);
            assert(all.take(i + 1) =~= all.take(i as int).push(name@));
        }
        out.push(name);
        i = i + 1;
    }
    assert(all.take(i as int) =~= all);
    out
}

// ---- built-in templates ---------------------------------------------------------------

/// The templates that come with the library, by name.
///
/// The control file is not among them: the Debian backend writes it. Maintainer scripts are
/// not either: the backends compose them from snippets.
pub open spec fn builtin_table() -> Seq<(Seq<char>, Seq<char>)> {
    seq![
        ("default"@, DEFAULT@),
        ("executable"@, EXECUTABLE@),
        ("systemd.service"@, SYSTEMD_SERVICE@),
        ("sysv-init"@, SYSV_INIT@),
        ("upstart.conf"@, UPSTART_CONF@),
        ("tmpfiles.conf"@, TMPFILES_CONF@),
    ]
}

fn builtins() -> (r: Vec<(&'static str, &'static str)>)
    ensures
        table_of(r@) == builtin_table(),
{
    let r: Vec<(&'static str, &'static str)> = vec![
        ("default", DEFAULT),
        ("executable", EXECUTABLE),
        ("systemd.service", SYSTEMD_SERVICE),
        ("sysv-init", SYSV_INIT),
        ("upstart.conf", UPSTART_CONF),
        ("tmpfiles.conf", TMPFILES_CONF),
    ];
    assert(table_of(r@) =~= builtin_table());
    r
}

/// Every built-in template name, sorted.
pub fn builtin_names() -> (r: Vec<&'static str>)
    ensures
        views(r@) == sorted_members(names_of(builtin_table()).to_set()),
        lists(views(r@), names_of(builtin_table()).to_set()),
{
    names(&builtins())
}

/// The source of a built-in template; the error lists the valid names.
pub fn builtin(name: &str) -> (r: Result<&'static str>)
    ensures
        outcome(r) == looked_up("template"@, builtin_table(), name@),
{
    look_up("template", &builtins(), name)
}

/// A template's source: what was read from the file that overrides it, or the built-in. A file
/// that could not be read is an error, never a silent fall back to the built-in.
pub fn load(name: &str, replacement: Option<Result<String>>) -> (r: Result<String>)
    ensures
        match replacement {
            Some(read) => r == read,
            None => outcome(r) == looked_up("template"@, builtin_table(), name@),
        },
{
    match replacement {
        Some(read) => read,
        None => match builtin(name) {
            Ok(text) => Ok(text.to_owned()),
            Err(e) => Err(e),
        },
    }
}

// ---- laws -----------------------------------------------------------------------------

/// The published vocabulary is exactly what a configuration populates.
pub proof fn vocabulary_is_what_a_configuration_populates(
    config: ResolvedConfigView,
    generator_version: Seq<char>,
    version: Seq<char>,
    architecture: Seq<char>,
)
    ensures
        config_variables(config, generator_version, version, architecture).dom()
            == canonical_names().to_set(),
{
    let values = config_variables(config, generator_version, version, architecture);
    let all = canonical_names();
    assert forall|k: Seq<char>| #[trigger] values.dom().contains(k) implies all.to_set().contains(
        k,
    ) by {
        assert(exists|i: int| 0 <= i < all.len() && all[i] == k) by {
            assert(k == all[0] || k == all[1] || k == all[2] || k == all[3] || k == all[4] || k
                == all[5] || k == all[6] || k == all[7] || k == all[8] || k == all[9] || k
                == all[10] || k == all[11] || k == all[12] || k == all[13] || k == all[14] || k
                == all[15] || k == all[16] || k == all[17] || k == all[18] || k == all[19]);
        }
    }
    assert forall|k: Seq<char>| #[trigger] all.to_set().contains(k) implies values.dom().contains(
        k,
    ) by {
        let i = all.index_of(k);
        assert(all[i] == k);
    }
    assert(values.dom() =~= all.to_set());
}

/// Each variable holds the field of the configuration it is named after: the names and texts as
/// they are, the `_shell` forms quoted, the description's first line only.
pub proof fn each_variable_is_the_field_it_names(
    c: ResolvedConfigView,
    generator_version: Seq<char>,
    version: Seq<char>,
    architecture: Seq<char>,
)
    ensures
        ({
            let values = config_variables(c, generator_version, version, architecture);
            &&& values["package_name"@] == c.package_name
            &&& values["package_version"@] == version
            &&& values["package_description"@] == synopsis_of(c.description)
            &&& values["package_description_shell"@] == quoted(synopsis_of(c.description))
            &&& values["package_maintainer"@] == c.maintainer
            &&& values["package_maintainer_shell"@] == quoted(c.maintainer)
            &&& values["package_dependencies"@] == (match c.dependencies {
                Some(d) => d,
                None => Seq::empty(),
            })
            &&& values["package_architecture"@] == architecture
            &&& values["executable_name"@] == c.executable_name
            &&& values["install_dir"@] == c.install_dir
            &&& values["user"@] == c.user
            &&& values["group"@] == c.group
            &&& values["init"@] == c.init.spelling()
            &&& values["install_strategy"@] == c.install_strategy.spelling()
            &&& values["install_binary"@] == c.install_binary
            &&& values["install_command"@] == c.install_command
            &&& values["no_rebuild"@] == "0"@
            &&& values["generator_version"@] == generator_version
            &&& values["cli_entrypoint"@] == (match c.cli_entrypoint {
                Some(e) => e,
                None => Seq::empty(),
            })
            &&& values["daemon_entrypoint"@] == (match c.daemon_entrypoint {
                Some(e) => e,
                None => Seq::empty(),
            })
        }),
{
    reveal_strlit("package_name");
    reveal_strlit("package_version");
    reveal_strlit("package_description");
    reveal_strlit("package_description_shell");
    reveal_strlit("package_maintainer");
    reveal_strlit("package_maintainer_shell");
    reveal_strlit("package_dependencies");
    reveal_strlit("package_architecture");
    reveal_strlit("executable_name");
    reveal_strlit("install_dir");
    reveal_strlit("user");
    reveal_strlit("group");
    reveal_strlit("init");
    reveal_strlit("install_strategy");
    reveal_strlit("install_binary");
    reveal_strlit("install_command");
    reveal_strlit("no_rebuild");
    reveal_strlit("generator_version");
    reveal_strlit("cli_entrypoint");
    reveal_strlit("daemon_entrypoint");
    assert("package_name"@.len() == 12);
    assert("package_version"@.len() == 15);
    assert("package_description"@.len() == 19);
    assert("package_description_shell"@.len() == 25);
    assert("package_maintainer"@.len() == 18);
    assert("package_maintainer_shell"@.len() == 24);
    assert("package_dependencies"@.len() == 20);
    assert("package_architecture"@.len() == 20);
    assert("executable_name"@.len() == 15);
    assert("install_dir"@.len() == 11);
    assert("user"@.len() == 4);
    assert("group"@.len() == 5);
    assert("init"@.len() == 4);
    assert("install_strategy"@.len() == 16);
    assert("install_binary"@.len() == 14);
    assert("install_command"@.len() == 15);
    assert("no_rebuild"@.len() == 10);
    assert("generator_version"@.len() == 17);
    assert("cli_entrypoint"@.len() == 14);
    assert("daemon_entrypoint"@.len() == 17);
    assert("package_version"@[0] == 'p');
    assert("executable_name"@[0] == 'e');
    assert("install_command"@[0] == 'i');
    assert("package_dependencies"@[8] == 'd');
    assert("package_architecture"@[8] == 'a');
    assert("user"@[0] == 'u');
    assert("init"@[0] == 'i');
    assert("install_binary"@[0] == 'i');
    assert("cli_entrypoint"@[0] == 'c');
    assert("generator_version"@[0] == 'g');
    assert("daemon_entrypoint"@[0] == 'd');
}

/// Looking from `n` on in a text is looking in what follows `n`.
proof fn first_at_shifts(s: Seq<char>, n: int, from: int, pat: Seq<char>)
    requires
        0 <= n <= s.len(),
        from >= 0,
    ensures
        first_at(s, n + from, pat) == (match first_at(s.skip(n), from, pat) {
            Some(i) => Some(n + i),
            None => None::<int>,
        }),
    decreases s.len() + 1 - from,
{
    if from <= s.len() - n {
        if n + from + pat.len() <= s.len() {
            assert(s.subrange(n + from, n + from + pat.len()) =~= s.skip(n).subrange(
                from,
                from + pat.len(),
            ));
        }
        assert(stands_at(s, n + from, pat) == stands_at(s.skip(n), from, pat));
        first_at_shifts(s, n, from + 1, pat);
    }
}

proof fn rendering_shifts(
    name: Seq<char>,
    source: Seq<char>,
    values: Map<Seq<char>, Seq<char>>,
    n: int,
    i: int,
)
    requires
        0 <= n,
        0 <= i,
        n + i <= source.len(),
    ensures
        rendered_from(name, source, values, n + i) == rendered_from(
            name,
            source.skip(n),
            values,
            i,
        ),
    decreases source.len() - i,
{
    reveal_strlit("{{");
    reveal_strlit("}}");
    let rest = source.skip(n);
    first_at_shifts(source, n, i, "{{"@);
    first_at_bounds(rest, i, "{{"@);
    match first_at(rest, i, "{{"@) {
        None => {
            assert(source.skip(n + i) =~= rest.skip(i));
        },
        Some(start) => {
            first_at_shifts(source, n, start + 2, "}}"@);
            first_at_bounds(rest, start + 2, "}}"@);
            assert(source.skip(n + start) =~= rest.skip(start));
            if let Some(end) = first_at(rest, start + 2, "}}"@) {
                assert(source.subrange(n + start + 2, n + end) =~= rest.subrange(start + 2, end));
                assert(source.subrange(n + i, n + start) =~= rest.subrange(i, start));
                rendering_shifts(name, source, values, n, end + 2);
            }
        },
    }
}

/// Rendering goes placeholder by placeholder: the text before the first one stays, its value
/// takes its place, and what follows renders as it would alone.
pub proof fn rendering_goes_placeholder_by_placeholder(
    name: Seq<char>,
    source: Seq<char>,
    values: Map<Seq<char>, Seq<char>>,
    start: int,
    end: int,
)
    requires
        first_at(source, 0, "{{"@) == Some(start),
        first_at(source, start + 2, "}}"@) == Some(end),
        trimmed(source.subrange(start + 2, end)).len() > 0,
        values.dom().contains(trimmed(source.subrange(start + 2, end))),
    ensures
        rendered(name, source, values) == (match rendered(name, source.skip(end + 2), values) {
            Ok(rest) => Ok::<Seq<char>, ErrorView>(
                source.take(start) + values[trimmed(source.subrange(start + 2, end))] + rest,
            ),
            Err(e) => Err(e),
        }),
{
    reveal_strlit("{{");
    reveal_strlit("}}");
    first_at_bounds(source, 0, "{{"@);
    first_at_bounds(source, start + 2, "}}"@);
    assert(source.subrange(0, start) =~= source.take(start));
    rendering_shifts(name, source, values, end + 2, 0);
}

/// A placeholder that is opened and not closed is refused, as is one that names nothing.
pub proof fn broken_placeholders_are_refused(
    name: Seq<char>,
    source: Seq<char>,
    values: Map<Seq<char>, Seq<char>>,
    start: int,
)
    requires
        first_at(source, 0, "{{"@) == Some(start),
    ensures
        first_at(source, start + 2, "}}"@) is None ==> rendered(name, source, values) is Err,
        first_at(source, start + 2, "}}"@) matches Some(end) ==> (trimmed(
            source.subrange(start + 2, end),
        ).len() == 0 ==> rendered(name, source, values) is Err),
{
    reveal_strlit("{{");
    reveal_strlit("}}");
}

/// A template without a placeholder renders to itself.
pub proof fn plain_text_is_unchanged(
    name: Seq<char>,
    source: Seq<char>,
    values: Map<Seq<char>, Seq<char>>,
)
    requires
        first_at(source, 0, "{{"@) is None,
    ensures
        rendered(name, source, values) == Ok::<Seq<char>, ErrorView>(source),
{
    assert(source.skip(0) =~= source);
}

/// A value is placed as it is: whatever it holds, even text that looks like a placeholder,
/// stands in the result unchanged.
pub proof fn values_stay_literal(
    name: Seq<char>,
    source: Seq<char>,
    values: Map<Seq<char>, Seq<char>>,
    start: int,
    end: int,
)
    requires
        first_at(source, 0, "{{"@) == Some(start),
        first_at(source, start + 2, "}}"@) == Some(end),
        first_at(source, end + 2, "{{"@) is None,
        trimmed(source.subrange(start + 2, end)).len() > 0,
        values.dom().contains(trimmed(source.subrange(start + 2, end))),
    ensures
        rendered(name, source, values) == Ok::<Seq<char>, ErrorView>(
            source.take(start) + values[trimmed(source.subrange(start + 2, end))] + source.skip(
                end + 2,
            ),
        ),
{
    reveal_strlit("{{");
    reveal_strlit("}}");
    first_at_bounds(source, 0, "{{"@);
    first_at_bounds(source, start + 2, "}}"@);
    assert(source.subrange(0, start) =~= source.take(start));
    reveal_with_fuel(rendered_from, 2);
}

/// A placeholder that names no variable is refused, and the error names it.
pub proof fn unknown_placeholders_are_named(
    name: Seq<char>,
    source: Seq<char>,
    values: Map<Seq<char>, Seq<char>>,
    start: int,
    end: int,
)
    requires
        first_at(source, 0, "{{"@) == Some(start),
        first_at(source, start + 2, "}}"@) == Some(end),
        trimmed(source.subrange(start + 2, end)).len() > 0,
        !values.dom().contains(trimmed(source.subrange(start + 2, end))),
    ensures
        rendered(name, source, values) == Err::<Seq<char>, ErrorView>(
            unknown_variable(
                name,
                trimmed(source.subrange(start + 2, end)),
                sorted_members(values.dom()),
            ),
        ),
{
    reveal_strlit("{{");
}

/// A suggestion is the closest of the known names, within a third of the length of what was
/// written, or one slip of a short text; without one that close there is none.
pub proof fn suggestions_are_close_names(names: Seq<Seq<char>>, unknown: Seq<char>)
    ensures
        ({
            let limit = if byte_len(unknown) < 6 {
                1nat
            } else {
                byte_len(unknown) / 3
            };
            match suggestion(names, unknown) {
                Some(s) => names.contains(s) && edits(unknown, s) <= limit && forall|j: int|
                    0 <= j < names.len() ==> edits(unknown, s) <= edits(
                        unknown,
                        #[trigger] names[j],
                    ),
                None => forall|j: int|
                    0 <= j < names.len() ==> edits(unknown, #[trigger] names[j]) > limit,
            }
        }),
{
    nearest_is_nearest(names, unknown, suggestion_budget(unknown), names.len() as int);
}

/// Each built-in template is found under its own name.
pub proof fn each_built_in_template_has_its_name()
    ensures
        looked_up("template"@, builtin_table(), "default"@) == Ok::<Seq<char>, ErrorView>(DEFAULT@),
        looked_up("template"@, builtin_table(), "executable"@) == Ok::<Seq<char>, ErrorView>(
            EXECUTABLE@,
        ),
        looked_up("template"@, builtin_table(), "systemd.service"@) == Ok::<Seq<char>, ErrorView>(
            SYSTEMD_SERVICE@,
        ),
        looked_up("template"@, builtin_table(), "sysv-init"@) == Ok::<Seq<char>, ErrorView>(
            SYSV_INIT@,
        ),
        looked_up("template"@, builtin_table(), "upstart.conf"@) == Ok::<Seq<char>, ErrorView>(
            UPSTART_CONF@,
        ),
        looked_up("template"@, builtin_table(), "tmpfiles.conf"@) == Ok::<Seq<char>, ErrorView>(
            TMPFILES_CONF@,
        ),
{
    reveal_strlit("default");
    reveal_strlit("executable");
    reveal_strlit("systemd.service");
    reveal_strlit("sysv-init");
    reveal_strlit("upstart.conf");
    reveal_strlit("tmpfiles.conf");
    assert("default"@.len() == 7);
    assert("executable"@.len() == 10);
    assert("systemd.service"@.len() == 15);
    assert("sysv-init"@.len() == 9);
    assert("upstart.conf"@.len() == 12);
    assert("tmpfiles.conf"@.len() == 13);
    let table = builtin_table();
    names_are_looked_up_whole("template"@, table, "default"@, 0);
    names_are_looked_up_whole("template"@, table, "executable"@, 1);
    names_are_looked_up_whole("template"@, table, "systemd.service"@, 2);
    names_are_looked_up_whole("template"@, table, "sysv-init"@, 3);
    names_are_looked_up_whole("template"@, table, "upstart.conf"@, 4);
    names_are_looked_up_whole("template"@, table, "tmpfiles.conf"@, 5);
}

/// The first place where a text stands is the one before which it stands nowhere.
proof fn first_at_is(s: Seq<char>, from: int, pat: Seq<char>, k: int)
    requires
        0 <= from <= k,
        stands_at(s, k, pat),
        forall|j: int| from <= j < k ==> !stands_at(s, j, pat),
    ensures
        first_at(s, from, pat) == Some(k),
{
    first_at_bounds(s, from, pat);
}

/// A placeholder, with the blanks it is usually written with.
pub open spec fn placeholder(variable: Seq<char>) -> Seq<char> {
    "{{ "@ + variable + " }}"@
}

/// A placeholder renders to the value of the variable it names, whatever text stands before it
/// and whatever follows it.
pub proof fn a_placeholder_renders_to_its_value(
    name: Seq<char>,
    before: Seq<char>,
    variable: Seq<char>,
    rest: Seq<char>,
    values: Map<Seq<char>, Seq<char>>,
)
    requires
        forall|i: int| 0 <= i < before.len() ==> #[trigger] before[i] != '{',
        variable.len() > 0,
        bare(variable),
        !variable.contains('}'),
        values.dom().contains(variable),
    ensures
        rendered(name, before + placeholder(variable) + rest, values) == (match rendered(
            name,
            rest,
            values,
        ) {
            Ok(after) => Ok::<Seq<char>, ErrorView>(before + values[variable] + after),
            Err(e) => Err(e),
        }),
{
    reveal_strlit("{{ ");
    reveal_strlit(" }}");
    reveal_strlit("{{");
    reveal_strlit("}}");
    let source = before + placeholder(variable) + rest;
    let start = before.len() as int;
    let end = start + 4 + variable.len();
    assert(source.subrange(start, start + 2) =~= "{{"@);
    assert(source.subrange(end, end + 2) =~= "}}"@);
    assert forall|j: int| 0 <= j < start implies !stands_at(source, j, "{{"@) by {
        assert(source[j] == before[j]);
        if stands_at(source, j, "{{"@) {
            assert(source.subrange(j, j + 2)[0] == source[j]);
        }
    }
    assert forall|j: int| start + 2 <= j < end implies !stands_at(source, j, "}}"@) by {
        if j == start + 2 || j == end - 1 {
            assert(source[j] == ' ');
        } else {
            assert(source[j] == variable[j - start - 3]);
            assert(variable.contains(variable[j - start - 3]));
        }
        if stands_at(source, j, "}}"@) {
            assert(source.subrange(j, j + 2)[0] == source[j]);
        }
    }
    first_at_is(source, 0, "{{"@, start);
    first_at_is(source, start + 2, "}}"@, end);
    let inside = source.subrange(start + 2, end);
    assert(inside =~= seq![' '] + variable + seq![' ']);
    assert(blank(seq![' ']));
    trimming_takes_the_blanks(seq![' '], variable, seq![' ']);
    rendering_goes_placeholder_by_placeholder(name, source, values, start, end);
    assert(source.take(start) =~= before);
    assert(source.skip(end + 2) =~= rest);
}

/// The synopsis of a description is its first line, trimmed, whatever follows, and is the one
/// package metadata carries.
pub proof fn the_synopsis_is_the_first_line(lines: Seq<Seq<char>>, line: Seq<char>)
    requires
        forall|i: int| 0 <= i < lines.len() ==> clean_line(#[trigger] lines[i]),
        clean_line(line),
    ensures
        lines.len() > 0 ==> synopsis_of(unlines(lines)) == trimmed(lines[0]),
        bare(line) ==> synopsis_of(line) == line,
        description_of(unlines(lines)) matches Ok(d) ==> d.synopsis == synopsis_of(unlines(lines)),
        description_of(line) matches Ok(d) ==> d.synopsis == synopsis_of(line),
{
    lines_of_unlines(lines);
    split_whole(line, '\n');
    if bare(line) {
        let none = Seq::<char>::empty();
        assert(none + line + none =~= line);
        trimming_takes_the_blanks(none, line, none);
        if line.len() > 0 {
            assert(lines_of(line) =~= seq![line]);
        } else {
            assert(lines_of(line) =~= Seq::<Seq<char>>::empty());
            assert(line =~= none);
        }
    }
}

} // verus!
