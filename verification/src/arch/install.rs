//! Composing the Arch `.INSTALL` scriptlet.
//!
//! One file of named shell functions, and `pacman` calls the one matching the operation; the
//! function name is the dispatch. Arch is systemd-only, so there are no System V or Upstart
//! snippets.

use vstd::prelude::*;

use crate::arch::snippets::{
    ACCOUNT, LOGDIR, NPM_INSTALL, PURGE, SYSTEMD_ENABLE, SYSTEMD_RELOAD, SYSTEMD_RESTART,
    SYSTEMD_START, SYSTEMD_STOP,
};
use crate::catalogue::{
    generator, generator_of, look_up, looked_up, names, names_of, only_if, render_all,
    rendered_all, selections_hold, table_of,
};
use crate::error::{opt, outcome, ErrorView, Result};
use crate::npm::{InitSystem, InstallStrategy};
use crate::strings::{lists, sorted_members, views};
use crate::template::Variables;

verus! {

/// The first words of the file.
pub const HEADER: &'static str = "# This file was autogenerated by nativepkg ";

/// The functions `pacman` may call, in emission order. Both remove hooks are needed: the unit
/// is stopped while its files still exist, the account removed after they are gone.
#[derive(Debug, Clone, Copy, PartialEq, Eq, Structural)]
pub enum Hook {
    PostInstall,
    PostUpgrade,
    PreRemove,
    PostRemove,
}

impl Hook {
    pub open spec fn spelling(self) -> Seq<char> {
        match self {
            Hook::PostInstall => "post_install"@,
            Hook::PostUpgrade => "post_upgrade"@,
            Hook::PreRemove => "pre_remove"@,
            Hook::PostRemove => "post_remove"@,
        }
    }

    /// The function's name.
    pub fn name(self) -> (r: &'static str)
        ensures
            r@ == self.spelling(),
    {
        match self {
            Hook::PostInstall => "post_install",
            Hook::PostUpgrade => "post_upgrade",
            Hook::PreRemove => "pre_remove",
            Hook::PostRemove => "post_remove",
        }
    }
}

/// The snippets, by name.
pub open spec fn snippet_table() -> Seq<(Seq<char>, Seq<char>)> {
    seq![
        ("account"@, ACCOUNT@),
        ("logdir"@, LOGDIR@),
        ("npm-install"@, NPM_INSTALL@),
        ("systemd-reload"@, SYSTEMD_RELOAD@),
        ("systemd-enable"@, SYSTEMD_ENABLE@),
        ("systemd-restart"@, SYSTEMD_RESTART@),
        ("systemd-start"@, SYSTEMD_START@),
        ("systemd-stop"@, SYSTEMD_STOP@),
        ("purge"@, PURGE@),
    ]
}

fn snippets() -> (r: Vec<(&'static str, &'static str)>)
    ensures
        table_of(r@) == snippet_table(),
{
    let r: Vec<(&'static str, &'static str)> = vec![
        ("account", ACCOUNT),
        ("logdir", LOGDIR),
        ("npm-install", NPM_INSTALL),
        ("systemd-reload", SYSTEMD_RELOAD),
        ("systemd-enable", SYSTEMD_ENABLE),
        ("systemd-restart", SYSTEMD_RESTART),
        ("systemd-start", SYSTEMD_START),
        ("systemd-stop", SYSTEMD_STOP),
        ("purge", PURGE),
    ];
    assert(table_of(r@) =~= snippet_table());
    r
}

/// Every snippet name, sorted.
pub fn snippet_names() -> (r: Vec<&'static str>)
    ensures
        views(r@) == sorted_members(names_of(snippet_table()).to_set()),
        lists(views(r@), names_of(snippet_table()).to_set()),
{
    names(&snippets())
}

/// The source of one snippet; the error lists the valid names.
pub fn snippet(name: &str) -> (r: Result<&'static str>)
    ensures
        outcome(r) == looked_up("snippet"@, snippet_table(), name@),
{
    look_up("snippet", &snippets(), name)
}

/// The init system this backend cannot serve, if the configuration names one.
pub open spec fn unserved(init: InitSystem) -> Option<Seq<char>> {
    match init {
        InitSystem::Sysv => Some("sysv"@),
        InitSystem::Upstart => Some("upstart"@),
        _ => None,
    }
}

/// The init system this backend cannot serve, if the configuration names one. Reported rather
/// than ignored: a package that installs but never starts its service is worse than an error.
pub fn unsupported_init(init: InitSystem) -> (r: Option<&'static str>)
    ensures
        opt(r) == unserved(init),
{
    match init {
        InitSystem::Sysv => Some("sysv"),
        InitSystem::Upstart => Some("upstart"),
        InitSystem::Systemd | InitSystem::Auto | InitSystem::NoInit => None,
    }
}

/// Whether `post_install` applies the preset policy to the unit.
pub open spec fn presets(init: InitSystem) -> bool {
    !(init is NoInit) && unserved(init) is None
}

/// Whether `post_install` will `systemctl preset` the unit, and so whether the package must
/// ship the preset policy. One predicate for both, so the two cannot drift.
pub fn uses_preset(init: InitSystem) -> (b: bool)
    ensures
        b == presets(init),
{
    init != InitSystem::NoInit && unsupported_init(init).is_none()
}

/// Which snippets one function is composed from. No preset on upgrade: the administrator may
/// have disabled the unit since.
pub open spec fn chosen(hook: Hook, init: InitSystem, strategy: InstallStrategy) -> Seq<Seq<char>> {
    let service = presets(init);
    match hook {
        Hook::PostInstall => only_if(strategy is NpmInstall, seq!["npm-install"@]) + only_if(
            service,
            seq![
                "account"@,
                "logdir"@,
                "systemd-reload"@,
                "systemd-enable"@,
                "systemd-start"@,
            ],
        ),
        Hook::PostUpgrade => only_if(service, seq!["systemd-reload"@, "systemd-restart"@]),
        Hook::PreRemove => only_if(service, seq!["systemd-stop"@]),
        Hook::PostRemove => only_if(service, seq!["systemd-reload"@, "purge"@]),
    }
}

/// Which snippets one function is composed from.
pub fn snippets_for(hook: Hook, init: InitSystem, strategy: InstallStrategy) -> (r: Vec<
    &'static str,
>)
    ensures
        views(r@) == chosen(hook, init, strategy),
{
    let service = uses_preset(init);
    let mut r: Vec<&'static str> = Vec::new();
    match hook {
        Hook::PostInstall => {
            if strategy == InstallStrategy::NpmInstall {
                r.push("npm-install");
            }
            if service {
                r.push("account");
                r.push("logdir");
                r.push("systemd-reload");
                r.push("systemd-enable");
                r.push("systemd-start");
            }
        },
        Hook::PostUpgrade => {
            if service {
                r.push("systemd-reload");
                r.push("systemd-restart");
            }
        },
        Hook::PreRemove => {
            if service {
                r.push("systemd-stop");
            }
        },
        Hook::PostRemove => {
            if service {
                r.push("systemd-reload");
                r.push("purge");
            }
        },
    }
    assert(views(r@) =~= chosen(hook, init, strategy));
    r
}

/// `text` with one more function, left out where its body would be empty.
pub open spec fn with_function(
    text: core::result::Result<Seq<char>, ErrorView>,
    hook: Hook,
    init: InitSystem,
    strategy: InstallStrategy,
    values: Map<Seq<char>, Seq<char>>,
) -> core::result::Result<Seq<char>, ErrorView> {
    match text {
        Err(e) => Err(e),
        Ok(before) => {
            let parts = chosen(hook, init, strategy);
            if parts.len() == 0 {
                Ok(before)
            } else {
                match rendered_all(parts, snippet_table(), values, ""@) {
                    Err(e) => Err(e),
                    Ok(body) => Ok(
                        before + "\n"@ + hook.spelling() + "() {\n"@ + body + "}\n"@,
                    ),
                }
            }
        },
    }
}

/// Whether some function would have a body.
pub open spec fn has_functions(init: InitSystem, strategy: InstallStrategy) -> bool {
    presets(init) || strategy is NpmInstall
}

/// The header and the four functions.
pub open spec fn functions_text(
    init: InitSystem,
    strategy: InstallStrategy,
    values: Map<Seq<char>, Seq<char>>,
) -> core::result::Result<Seq<char>, ErrorView> {
    let header = Ok::<Seq<char>, ErrorView>(HEADER@ + generator_of(values) + "\n"@);
    let installed = with_function(header, Hook::PostInstall, init, strategy, values);
    let upgraded = with_function(installed, Hook::PostUpgrade, init, strategy, values);
    let stopped = with_function(upgraded, Hook::PreRemove, init, strategy, values);
    with_function(stopped, Hook::PostRemove, init, strategy, values)
}

/// The whole `.INSTALL` file, or nothing when no function would have a body.
pub open spec fn composed(
    init: InitSystem,
    strategy: InstallStrategy,
    values: Map<Seq<char>, Seq<char>>,
) -> core::result::Result<Option<Seq<char>>, ErrorView> {
    if !has_functions(init, strategy) {
        Ok(None)
    } else {
        match functions_text(init, strategy, values) {
            Err(e) => Err(e),
            Ok(text) => Ok(Some(text)),
        }
    }
}

/// Adds one function, unless its body would be empty.
fn add_function(
    text: Result<String>,
    hook: Hook,
    init: InitSystem,
    strategy: InstallStrategy,
    variables: &Variables,
) -> (r: Result<String>)
    ensures
        outcome(r) == with_function(outcome(text), hook, init, strategy, variables@),
{
    match text {
        Err(e) => Err(e),
        Ok(before) => {
            let parts = snippets_for(hook, init, strategy);
            assert(views(parts@).len() == parts@.len());
            if parts.len() == 0 {
                return Ok(before);
            }
            match render_all(&parts, &snippets(), variables, "") {
                Err(e) => Err(e),
                Ok(body) => {
                    let mut out = before;
                    out.append("\n");
                    out.append(hook.name());
                    out.append("() {\n");
                    out.append(body.as_str());
                    out.append("}\n");
                    Ok(out)
                },
            }
        },
    }
}

/// Composes the whole `.INSTALL` file, or `None` when no function would have a body: an empty
/// file would describe behaviour the package lacks. Fails when a snippet references a variable
/// the vocabulary does not supply.
pub fn compose(
    init: InitSystem,
    strategy: InstallStrategy,
    variables: &Variables,
) -> (r: Result<Option<String>>)
    ensures
        match r {
            Ok(text) => composed(init, strategy, variables@) == Ok::<
                Option<Seq<char>>,
                ErrorView,
            >(opt(text)),
            Err(e) => composed(init, strategy, variables@) == Err::<Option<Seq<char>>, ErrorView>(
                e@,
            ),
        },
{
    if !uses_preset(init) && strategy != InstallStrategy::NpmInstall {
        return Ok(None);
    }
    let mut header = HEADER.to_owned();
    header.append(generator(variables));
    header.append("\n");
    let installed = add_function(Ok(header), Hook::PostInstall, init, strategy, variables);
    let upgraded = add_function(installed, Hook::PostUpgrade, init, strategy, variables);
    let stopped = add_function(upgraded, Hook::PreRemove, init, strategy, variables);
    match add_function(stopped, Hook::PostRemove, init, strategy, variables) {
        Err(e) => Err(e),
        Ok(text) => Ok(Some(text)),
    }
}

// ---- laws -----------------------------------------------------------------------------

/// Every snippet a function can be composed from exists.
pub proof fn chosen_snippets_exist(hook: Hook, init: InitSystem, strategy: InstallStrategy)
    ensures
        forall|name: Seq<char>| #[trigger]
            chosen(hook, init, strategy).contains(name) ==> names_of(snippet_table()).contains(
                name,
            ),
{
    let all = names_of(snippet_table());
    assert(all[0] == "account"@);
    assert(all[1] == "logdir"@);
    assert(all[2] == "npm-install"@);
    assert(all[3] == "systemd-reload"@);
    assert(all[4] == "systemd-enable"@);
    assert(all[5] == "systemd-restart"@);
    assert(all[6] == "systemd-start"@);
    assert(all[7] == "systemd-stop"@);
    assert(all[8] == "purge"@);
}

/// A file is written exactly when one of the four functions has a body.
pub proof fn no_functions_no_file(
    init: InitSystem,
    strategy: InstallStrategy,
    values: Map<Seq<char>, Seq<char>>,
)
    ensures
        has_functions(init, strategy) <==> exists|hook: Hook| #[trigger]
            chosen(hook, init, strategy).len() > 0,
        composed(init, strategy, values) == Ok::<Option<Seq<char>>, ErrorView>(None) <==> (forall|
            hook: Hook,
        | #[trigger]
            chosen(hook, init, strategy).len() == 0),
{
    if has_functions(init, strategy) {
        assert(chosen(Hook::PostInstall, init, strategy).len() > 0);
    } else {
        assert forall|hook: Hook| #[trigger] chosen(hook, init, strategy).len() == 0 by {
            match hook {
                Hook::PostInstall => {},
                Hook::PostUpgrade => {},
                Hook::PreRemove => {},
                Hook::PostRemove => {},
            }
        }
    }
}

/// The functions a file defines, in order: `post_install`, and the other three for a service.
pub open spec fn defined(init: InitSystem) -> Seq<Hook> {
    if presets(init) {
        seq![Hook::PostInstall, Hook::PostUpgrade, Hook::PreRemove, Hook::PostRemove]
    } else {
        seq![Hook::PostInstall]
    }
}

/// The definition of one function, with its rendered snippets for a body.
pub open spec fn definition(
    hook: Hook,
    init: InitSystem,
    strategy: InstallStrategy,
    values: Map<Seq<char>, Seq<char>>,
) -> Seq<char> {
    "\n"@ + hook.spelling() + "() {\n"@ + rendered_all(
        chosen(hook, init, strategy),
        snippet_table(),
        values,
        ""@,
    )->Ok_0 + "}\n"@
}

/// The definitions of the first `n` of some functions, one after the other.
pub open spec fn definitions(
    hooks: Seq<Hook>,
    init: InitSystem,
    strategy: InstallStrategy,
    values: Map<Seq<char>, Seq<char>>,
    n: int,
) -> Seq<char>
    decreases n,
{
    if n <= 0 {
        Seq::empty()
    } else {
        definitions(hooks, init, strategy, values, n - 1) + definition(
            hooks[n - 1],
            init,
            strategy,
            values,
        )
    }
}

/// There is no file exactly without a service and without an install at install time; a file is
/// its header and the definitions of `post_install` and, exactly for a service, of
/// `post_upgrade`, `pre_remove` and `post_remove`, in this order, each with a body that renders
/// at least one snippet.
pub proof fn a_file_defines_its_functions_in_order(
    init: InitSystem,
    strategy: InstallStrategy,
    values: Map<Seq<char>, Seq<char>>,
)
    ensures
        composed(init, strategy, values) == Ok::<Option<Seq<char>>, ErrorView>(None) <==> !(
        strategy is NpmInstall) && !presets(init),
        composed(init, strategy, values) matches Ok(Some(text)) ==> text == HEADER@ + generator_of(
            values,
        ) + "\n"@ + definitions(
            defined(init),
            init,
            strategy,
            values,
            defined(init).len() as int,
        ),
        composed(init, strategy, values) matches Ok(Some(text)) ==> forall|i: int|
            0 <= i < defined(init).len() ==> chosen(
                #[trigger] defined(init)[i],
                init,
                strategy,
            ).len() > 0 && rendered_all(
                chosen(defined(init)[i], init, strategy),
                snippet_table(),
                values,
                ""@,
            ) is Ok,
{
    if composed(init, strategy, values) is Ok && composed(init, strategy, values)->Ok_0 is Some {
        let header = HEADER@ + generator_of(values) + "\n"@;
        let hooks = defined(init);
        let none = definitions(hooks, init, strategy, values, 0);
        assert(header =~= header + none);
        one_more(header, none, Hook::PostInstall, init, strategy, values);
        let first = definitions(hooks, init, strategy, values, 1);
        if presets(init) {
            assert(hooks[1] == Hook::PostUpgrade && hooks[2] == Hook::PreRemove && hooks[3]
                == Hook::PostRemove);
            one_more(header, first, Hook::PostUpgrade, init, strategy, values);
            let second = definitions(hooks, init, strategy, values, 2);
            one_more(header, second, Hook::PreRemove, init, strategy, values);
            let third = definitions(hooks, init, strategy, values, 3);
            one_more(header, third, Hook::PostRemove, init, strategy, values);
        }
    }
}

/// Adding a function to a file adds its definition.
proof fn one_more(
    header: Seq<char>,
    before: Seq<char>,
    hook: Hook,
    init: InitSystem,
    strategy: InstallStrategy,
    values: Map<Seq<char>, Seq<char>>,
)
    ensures
        chosen(hook, init, strategy).len() > 0 ==> match rendered_all(
            chosen(hook, init, strategy),
            snippet_table(),
            values,
            ""@,
        ) {
            Ok(_) => with_function(Ok(header + before), hook, init, strategy, values) == Ok::<
                Seq<char>,
                ErrorView,
            >(header + (before + definition(hook, init, strategy, values))),
            Err(e) => with_function(Ok(header + before), hook, init, strategy, values) == Err::<
                Seq<char>,
                ErrorView,
            >(e),
        },
{
    let body = rendered_all(chosen(hook, init, strategy), snippet_table(), values, ""@)->Ok_0;
    assert((header + before) + "\n"@ + hook.spelling() + "() {\n"@ + body + "}\n"@ =~= header + (
    before + definition(hook, init, strategy, values)));
}

/// The preset policy is shipped exactly where `post_install` applies it, and no upgrade does.
pub proof fn preset_agrees_with_selection(init: InitSystem, strategy: InstallStrategy)
    ensures
        presets(init) <==> chosen(Hook::PostInstall, init, strategy).contains("systemd-enable"@),
        !chosen(Hook::PostUpgrade, init, strategy).contains("systemd-enable"@),
{
    reveal_strlit("npm-install");
    reveal_strlit("systemd-enable");
    reveal_strlit("systemd-reload");
    reveal_strlit("systemd-restart");
    let parts = chosen(Hook::PostInstall, init, strategy);
    let npm = only_if(strategy is NpmInstall, seq!["npm-install"@]);
    assert("npm-install"@.len() == 11 && "systemd-enable"@.len() == 14);
    assert("systemd-enable"@[8] == 'e' && "systemd-reload"@[8] == 'r');
    assert("systemd-restart"@.len() == 15);
    if presets(init) {
        assert(parts[npm.len() as int + 3] == "systemd-enable"@);
    }
}

/// A service that is enabled and started on installation is restarted on upgrade, stopped before
/// removal and purged after it; it is never enabled again on upgrade. All of it happens exactly
/// where the package serves systemd.
pub proof fn what_is_started_is_stopped_and_purged(init: InitSystem, strategy: InstallStrategy)
    ensures
        ({
            let installed = chosen(Hook::PostInstall, init, strategy);
            let upgraded = chosen(Hook::PostUpgrade, init, strategy);
            let stopped = chosen(Hook::PreRemove, init, strategy);
            let removed = chosen(Hook::PostRemove, init, strategy);
            let systemd = init is Auto || init is Systemd;
            &&& installed.contains("account"@) <==> systemd
            &&& installed.contains("logdir"@) <==> systemd
            &&& installed.contains("systemd-reload"@) <==> systemd
            &&& installed.contains("systemd-enable"@) <==> systemd
            &&& installed.contains("systemd-start"@) <==> systemd
            &&& installed.contains("npm-install"@) <==> strategy is NpmInstall
            &&& upgraded.contains("systemd-reload"@) <==> systemd
            &&& upgraded.contains("systemd-restart"@) <==> systemd
            &&& !upgraded.contains("systemd-enable"@)
            &&& stopped.contains("systemd-stop"@) <==> systemd
            &&& removed.contains("systemd-reload"@) <==> systemd
            &&& removed.contains("purge"@) <==> systemd
        }),
{
    reveal_strlit("account");
    reveal_strlit("logdir");
    reveal_strlit("npm-install");
    reveal_strlit("systemd-reload");
    reveal_strlit("systemd-enable");
    reveal_strlit("systemd-restart");
    reveal_strlit("systemd-start");
    reveal_strlit("systemd-stop");
    reveal_strlit("purge");
    assert("account"@.len() == 7);
    assert("logdir"@.len() == 6);
    assert("npm-install"@.len() == 11);
    assert("systemd-reload"@.len() == 14);
    assert("systemd-enable"@.len() == 14);
    assert("systemd-restart"@.len() == 15);
    assert("systemd-start"@.len() == 13);
    assert("systemd-stop"@.len() == 12);
    assert("purge"@.len() == 5);
    assert("systemd-reload"@[8] == 'r');
    assert("systemd-enable"@[8] == 'e');
    selections_hold::<Seq<char>>();
}

/// What the functions do, they do in the order its parts need: dependencies before the account,
/// the account before its log directory, the unit known before it is enabled and enabled before
/// it is started.
pub proof fn functions_do_things_in_order(init: InitSystem, strategy: InstallStrategy)
    ensures
        ({
            let p = chosen(Hook::PostInstall, init, strategy);
            let first = if strategy is NpmInstall {
                1int
            } else {
                0
            };
            &&& strategy is NpmInstall ==> p.len() >= 1 && p[0] == "npm-install"@
            &&& (init is Auto || init is Systemd) ==> p.len() == first + 5 && p[first]
                == "account"@ && p[first + 1] == "logdir"@ && p[first + 2] == "systemd-reload"@
                && p[first + 3] == "systemd-enable"@ && p[first + 4] == "systemd-start"@
            &&& (init is Auto || init is Systemd) ==> chosen(Hook::PostUpgrade, init, strategy)
                == seq!["systemd-reload"@, "systemd-restart"@]
        }),
{
}

} // verus!
