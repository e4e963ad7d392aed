//! Composing Debian maintainer scripts from named snippets.
//!
//! Everything here is dpkg-shaped, so it lives in this backend. As debhelper does, snippets are
//! selected at build time rather than branched on at install time, so what ships is exactly
//! what was tested.

use vstd::prelude::*;

use crate::catalogue::{
    generator, generator_of, holds, look_up, looked_up, names, names_of, only_if, render_all,
    rendered_all, selections_hold, table_of,
};
use crate::deb::snippets::{
    POSTINST_ACCOUNT, POSTINST_LOGDIR, POSTINST_NPM_INSTALL, POSTINST_SYSTEMD_ENABLE,
    POSTINST_SYSTEMD_RESTART, POSTINST_SYSV, POSTINST_UPSTART, POSTRM_PURGE, POSTRM_SYSTEMD,
    POSTRM_SYSTEMD_RELOAD, POSTRM_SYSV, PRERM_SYSTEMD_RESTART, PRERM_SYSV, PRERM_UPSTART,
};
use crate::error::{outcome, ErrorView, Result};
use crate::npm::{InitSystem, InstallStrategy};
use crate::strings::{lists, sorted_members, views};
use crate::template::Variables;

verus! {

/// POSIX `sh`, like Debian's own maintainer scripts and every debhelper fragment.
pub const SHEBANG: &'static str = "#!/bin/sh\n# This file was autogenerated by nativepkg ";

/// The four scripts dpkg may invoke.
#[derive(Debug, Clone, Copy, PartialEq, Eq, PartialOrd, Ord, Structural)]
pub enum Script {
    Preinst,
    Postinst,
    Prerm,
    Postrm,
}

impl Script {
    pub open spec fn spelling(self) -> Seq<char> {
        match self {
            Script::Preinst => "preinst"@,
            Script::Postinst => "postinst"@,
            Script::Prerm => "prerm"@,
            Script::Postrm => "postrm"@,
        }
    }

    pub fn name(self) -> (r: &'static str)
        ensures
            r@ == self.spelling(),
    {
        match self {
            Script::Preinst => "preinst",
            Script::Postinst => "postinst",
            Script::Prerm => "prerm",
            Script::Postrm => "postrm",
        }
    }

    pub fn all() -> (r: [Self; 4])
        ensures
            r@ == seq![Script::Preinst, Script::Postinst, Script::Prerm, Script::Postrm],
    {
        let r = [Script::Preinst, Script::Postinst, Script::Prerm, Script::Postrm];
        assert(r@ =~= seq![Script::Preinst, Script::Postinst, Script::Prerm, Script::Postrm]);
        r
    }
}

/// The snippets, by name.
pub open spec fn snippet_table() -> Seq<(Seq<char>, Seq<char>)> {
    seq![
        ("postinst-account"@, POSTINST_ACCOUNT@),
        ("postinst-logdir"@, POSTINST_LOGDIR@),
        ("postinst-npm-install"@, POSTINST_NPM_INSTALL@),
        ("postinst-systemd-enable"@, POSTINST_SYSTEMD_ENABLE@),
        ("postinst-systemd-restart"@, POSTINST_SYSTEMD_RESTART@),
        ("postinst-sysv"@, POSTINST_SYSV@),
        ("postinst-upstart"@, POSTINST_UPSTART@),
        ("postrm-purge"@, POSTRM_PURGE@),
        ("postrm-systemd"@, POSTRM_SYSTEMD@),
        ("postrm-systemd-reload"@, POSTRM_SYSTEMD_RELOAD@),
        ("postrm-sysv"@, POSTRM_SYSV@),
        ("prerm-systemd-restart"@, PRERM_SYSTEMD_RESTART@),
        ("prerm-sysv"@, PRERM_SYSV@),
        ("prerm-upstart"@, PRERM_UPSTART@),
    ]
}

fn snippets() -> (r: Vec<(&'static str, &'static str)>)
    ensures
        table_of(r@) == snippet_table(),
{
    let r: Vec<(&'static str, &'static str)> = vec![
        ("postinst-account", POSTINST_ACCOUNT),
        ("postinst-logdir", POSTINST_LOGDIR),
        ("postinst-npm-install", POSTINST_NPM_INSTALL),
        ("postinst-systemd-enable", POSTINST_SYSTEMD_ENABLE),
        ("postinst-systemd-restart", POSTINST_SYSTEMD_RESTART),
        ("postinst-sysv", POSTINST_SYSV),
        ("postinst-upstart", POSTINST_UPSTART),
        ("postrm-purge", POSTRM_PURGE),
        ("postrm-systemd", POSTRM_SYSTEMD),
        ("postrm-systemd-reload", POSTRM_SYSTEMD_RELOAD),
        ("postrm-sysv", POSTRM_SYSV),
        ("prerm-systemd-restart", PRERM_SYSTEMD_RESTART),
        ("prerm-sysv", PRERM_SYSV),
        ("prerm-upstart", PRERM_UPSTART),
    ];
    assert(table_of(r@) =~= snippet_table());
    r
}

/// Every snippet name, sorted.
pub fn snippet_names() -> (r: Vec<&'static str>)
    ensures
        views(r@) == sorted_members(names_of(snippet_table()).to_set()),
        lists(views(r@), names_of(snippet_table()).to_set()),
{
    names(&snippets())
}

/// The source of one snippet; the error lists the valid names.
pub fn snippet(name: &str) -> (r: Result<&'static str>)
    ensures
        outcome(r) == looked_up("snippet"@, snippet_table(), name@),
{
    look_up("snippet", &snippets(), name)
}

/// Which snippets a script is composed from, in order.
pub open spec fn chosen(script: Script, init: InitSystem, strategy: InstallStrategy) -> Seq<
    Seq<char>,
> {
    let systemd = init.serves(InitSystem::Systemd);
    let sysv = init.serves(InitSystem::Sysv);
    let upstart = init is Upstart;
    let service = !(init is NoInit);
    match script {
        Script::Preinst => Seq::empty(),
        Script::Postinst => only_if(strategy is NpmInstall, seq!["postinst-npm-install"@])
            + only_if(service, seq!["postinst-account"@, "postinst-logdir"@]) + only_if(
            systemd,
            seq!["postinst-systemd-enable"@, "postinst-systemd-restart"@],
        ) + only_if(sysv, seq!["postinst-sysv"@]) + only_if(upstart, seq!["postinst-upstart"@]),
        Script::Prerm => only_if(systemd, seq!["prerm-systemd-restart"@]) + only_if(
            sysv,
            seq!["prerm-sysv"@],
        ) + only_if(upstart, seq!["prerm-upstart"@]),
        Script::Postrm => only_if(systemd, seq!["postrm-systemd"@]) + only_if(
            sysv,
            seq!["postrm-sysv"@],
        ) + only_if(service, seq!["postrm-purge"@]) + only_if(
            systemd,
            seq!["postrm-systemd-reload"@],
        ),
    }
}

/// Which snippets a script is composed from. Selection is at build time, so a package built
/// for systemd contains no Upstart logic at all.
pub fn snippets_for(script: Script, init: InitSystem, strategy: InstallStrategy) -> (r: Vec<
    &'static str,
>)
    ensures
        views(r@) == chosen(script, init, strategy),
{
    let mut r: Vec<&'static str> = Vec::new();
    if init == InitSystem::NoInit {
        // No service: no unit, account or log directory; only install-time dependencies.
        if script == Script::Postinst && strategy == InstallStrategy::NpmInstall {
            r.push("postinst-npm-install");
        }
        assert(views(r@) =~= chosen(script, init, strategy));
        return r;
    }
    match script {
        Script::Preinst => {},
        Script::Postinst => {
            if strategy == InstallStrategy::NpmInstall {
                r.push("postinst-npm-install");
            }
            r.push("postinst-account");
            r.push("postinst-logdir");
            if init.uses(InitSystem::Systemd) {
                r.push("postinst-systemd-enable");
                r.push("postinst-systemd-restart");
            }
            if init.uses(InitSystem::Sysv) {
                r.push("postinst-sysv");
            }
            if init == InitSystem::Upstart {
                r.push("postinst-upstart");
            }
        },
        Script::Prerm => {
            if init.uses(InitSystem::Systemd) {
                r.push("prerm-systemd-restart");
            }
            if init.uses(InitSystem::Sysv) {
                r.push("prerm-sysv");
            }
            if init == InitSystem::Upstart {
                r.push("prerm-upstart");
            }
        },
        Script::Postrm => {
            if init.uses(InitSystem::Systemd) {
                r.push("postrm-systemd");
            }
            if init.uses(InitSystem::Sysv) {
                r.push("postrm-sysv");
            }
            r.push("postrm-purge");
            if init.uses(InitSystem::Systemd) {
                // After the unit file is gone, so the reload observes its absence.
                r.push("postrm-systemd-reload");
            }
        },
    }
    assert(views(r@) =~= chosen(script, init, strategy));
    r
}

/// Whether some script is composed from the snippet called `name`.
pub open spec fn composed_from(name: Seq<char>, init: InitSystem, strategy: InstallStrategy) -> bool {
    exists|script: Script| #[trigger] chosen(script, init, strategy).contains(name)
}

/// The packages the composed scripts need.
pub open spec fn required(init: InitSystem, strategy: InstallStrategy) -> Seq<Seq<char>> {
    only_if(
        composed_from("postinst-account"@, init, strategy) || composed_from(
            "postrm-purge"@,
            init,
            strategy,
        ),
        seq!["adduser"@],
    ) + only_if(
        composed_from("postinst-systemd-enable"@, init, strategy) || composed_from(
            "postinst-systemd-restart"@,
            init,
            strategy,
        ) || composed_from("prerm-systemd-restart"@, init, strategy) || composed_from(
            "postrm-systemd"@,
            init,
            strategy,
        ),
        seq!["init-system-helpers (>= 1.54)"@],
    )
}

/// Whether some script is composed from the snippet called `name`.
fn any_uses(name: &str, init: InitSystem, strategy: InstallStrategy) -> (b: bool)
    ensures
        b == composed_from(name@, init, strategy),
{
    let b = holds(&snippets_for(Script::Preinst, init, strategy), name) || holds(
        &snippets_for(Script::Postinst, init, strategy),
        name,
    ) || holds(&snippets_for(Script::Prerm, init, strategy), name) || holds(
        &snippets_for(Script::Postrm, init, strategy),
        name,
    );
    proof {
        if composed_from(name@, init, strategy) {
            let script = choose|script: Script| #[trigger]
                chosen(script, init, strategy).contains(name@);
            match script {
                Script::Preinst => {},
                Script::Postinst => {},
                Script::Prerm => {},
                Script::Postrm => {},
            }
        }
    }
    b
}

/// Packages the composed scripts need at run time. Declared where the snippets are chosen, so
/// the two cannot disagree.
pub fn required_packages(init: InitSystem, strategy: InstallStrategy) -> (r: Vec<&'static str>)
    ensures
        views(r@) == required(init, strategy),
{
    let mut r: Vec<&'static str> = Vec::new();
    if any_uses("postinst-account", init, strategy) || any_uses("postrm-purge", init, strategy) {
        // `adduser`, `addgroup` and `deluser` all ship in this package.
        r.push("adduser");
    }
    if any_uses("postinst-systemd-enable", init, strategy) || any_uses(
        "postinst-systemd-restart",
        init,
        strategy,
    ) || any_uses("prerm-systemd-restart", init, strategy) || any_uses(
        "postrm-systemd",
        init,
        strategy,
    ) {
        // `deb-systemd-helper` and `deb-systemd-invoke`. Versioned, because depending on an
        // Essential package is allowed only with a version.
        r.push("init-system-helpers (>= 1.54)");
    }
    assert(views(r@) =~= required(init, strategy));
    r
}

/// One maintainer script.
pub open spec fn composed(
    script: Script,
    init: InitSystem,
    strategy: InstallStrategy,
    values: Map<Seq<char>, Seq<char>>,
) -> core::result::Result<Seq<char>, ErrorView> {
    match rendered_all(chosen(script, init, strategy), snippet_table(), values, "\n"@) {
        Err(e) => Err(e),
        Ok(body) => Ok(
            SHEBANG@ + generator_of(values) + "\nset -e\n"@ + body + "\nexit 0\n"@,
        ),
    }
}

/// Composes one maintainer script. Fails only when a snippet and the vocabulary have drifted
/// apart.
pub fn compose(
    script: Script,
    init: InitSystem,
    strategy: InstallStrategy,
    variables: &Variables,
) -> (r: Result<String>)
    ensures
        outcome(r) == composed(script, init, strategy, variables@),
{
    let parts = snippets_for(script, init, strategy);
    let body = match render_all(&parts, &snippets(), variables, "\n") {
        Err(e) => {
            return Err(e);
        },
        Ok(body) => body,
    };
    let mut out = SHEBANG.to_owned();
    out.append(generator(variables));
    out.append("\nset -e\n");
    out.append(body.as_str());
    // dpkg may pass an action this script does not handle; exiting 0 is the documented
    // behaviour.
    out.append("\nexit 0\n");
    Ok(out)
}

// ---- laws -----------------------------------------------------------------------------

/// Every snippet a script can be composed from exists.
pub proof fn chosen_snippets_exist(script: Script, init: InitSystem, strategy: InstallStrategy)
    ensures
        forall|name: Seq<char>| #[trigger]
            chosen(script, init, strategy).contains(name) ==> names_of(snippet_table()).contains(
                name,
            ),
{
    let all = names_of(snippet_table());
    assert(all[0] == "postinst-account"@);
    assert(all[1] == "postinst-logdir"@);
    assert(all[2] == "postinst-npm-install"@);
    assert(all[3] == "postinst-systemd-enable"@);
    assert(all[4] == "postinst-systemd-restart"@);
    assert(all[5] == "postinst-sysv"@);
    assert(all[6] == "postinst-upstart"@);
    assert(all[7] == "postrm-purge"@);
    assert(all[8] == "postrm-systemd"@);
    assert(all[9] == "postrm-systemd-reload"@);
    assert(all[10] == "postrm-sysv"@);
    assert(all[11] == "prerm-systemd-restart"@);
    assert(all[12] == "prerm-sysv"@);
    assert(all[13] == "prerm-upstart"@);
}

/// A package without a service declares no package its scripts would need, and its scripts do
/// nothing but install dependencies where that was asked for.
pub proof fn no_service_needs_nothing(script: Script, strategy: InstallStrategy)
    ensures
        required(InitSystem::NoInit, strategy) == Seq::<Seq<char>>::empty(),
        chosen(script, InitSystem::NoInit, strategy) == only_if(
            script is Postinst && strategy is NpmInstall,
            seq!["postinst-npm-install"@],
        ),
{
    reveal_strlit("postinst-npm-install");
    reveal_strlit("postinst-account");
    reveal_strlit("postrm-purge");
    reveal_strlit("postinst-systemd-enable");
    reveal_strlit("postinst-systemd-restart");
    reveal_strlit("prerm-systemd-restart");
    reveal_strlit("postrm-systemd");
    assert("postinst-npm-install"@[9] == 'n');
    assert("postinst-account"@[9] == 'a');
    assert("postinst-systemd-enable"@[9] == 's');
    assert("postinst-systemd-restart"@[9] == 's');
    assert("postrm-purge"@[5] == 'm');
    assert("postrm-systemd"@[5] == 'm');
    assert("prerm-systemd-restart"@[1] == 'r');
    assert(chosen(script, InitSystem::NoInit, strategy) =~= only_if(
        script is Postinst && strategy is NpmInstall,
        seq!["postinst-npm-install"@],
    ));
    assert(required(InitSystem::NoInit, strategy) =~= Seq::<Seq<char>>::empty());
}

/// A package that serves systemd declares the package its scripts call, and one with a service
/// declares what creates its account.
pub proof fn what_scripts_call_is_required(init: InitSystem, strategy: InstallStrategy)
    ensures
        !(init is NoInit) ==> required(init, strategy).contains("adduser"@),
        init.serves(InitSystem::Systemd) ==> required(init, strategy).contains(
            "init-system-helpers (>= 1.54)"@,
        ),
{
    let post = chosen(Script::Postinst, init, strategy);
    let npm = only_if(strategy is NpmInstall, seq!["postinst-npm-install"@]);
    if !(init is NoInit) {
        assert(post[npm.len() as int] == "postinst-account"@);
        assert(post.contains("postinst-account"@));
        assert(required(init, strategy)[0] == "adduser"@);
    }
    if init.serves(InitSystem::Systemd) {
        assert(post[npm.len() as int + 2] == "postinst-systemd-enable"@);
        assert(post.contains("postinst-systemd-enable"@));
        assert(required(init, strategy)[1] == "init-system-helpers (>= 1.54)"@);
    }
}

/// Upstart is composed only when it is named.
pub proof fn auto_composes_no_upstart(script: Script, strategy: InstallStrategy)
    ensures
        !chosen(script, InitSystem::Auto, strategy).contains("postinst-upstart"@),
        !chosen(script, InitSystem::Auto, strategy).contains("prerm-upstart"@),
{
    reveal_strlit("postinst-upstart");
    reveal_strlit("prerm-upstart");
    reveal_strlit("postinst-account");
    reveal_strlit("postinst-logdir");
    reveal_strlit("postinst-npm-install");
    reveal_strlit("postinst-systemd-enable");
    reveal_strlit("postinst-systemd-restart");
    reveal_strlit("postinst-sysv");
    reveal_strlit("postrm-purge");
    reveal_strlit("postrm-systemd");
    reveal_strlit("postrm-systemd-reload");
    reveal_strlit("postrm-sysv");
    reveal_strlit("prerm-systemd-restart");
    reveal_strlit("prerm-sysv");
    let listed = chosen(script, InitSystem::Auto, strategy);
    assert forall|i: int| 0 <= i < listed.len() implies #[trigger] listed[i] != "postinst-upstart"@
        && listed[i] != "prerm-upstart"@ by {
        let s = listed[i];
        let a = "postinst-upstart"@;
        let b = "prerm-upstart"@;
        assert(a[0] == 'p' && a[1] == 'o' && a[4] == 'i' && a[9] == 'u');
        assert(b[0] == 'p' && b[1] == 'r' && b[6] == 'u');
        assert(s[1] == 'o' || s[6] != 'u');
        assert(s[1] == 'r' || s[4] != 'i' || s[9] != 'u');
    }
}

/// Each init system whose service the package enables is the one it stops on removal and cleans
/// up after, and no other: a snippet stands in its script exactly where its init system is served.
pub proof fn what_is_enabled_is_stopped_and_cleaned_up(init: InitSystem, strategy: InstallStrategy)
    ensures
        ({
            let postinst = chosen(Script::Postinst, init, strategy);
            let prerm = chosen(Script::Prerm, init, strategy);
            let postrm = chosen(Script::Postrm, init, strategy);
            let systemd = init is Auto || init is Systemd;
            let sysv = init is Auto || init is Sysv;
            &&& postinst.contains("postinst-systemd-enable"@) <==> systemd
            &&& postinst.contains("postinst-systemd-restart"@) <==> systemd
            &&& prerm.contains("prerm-systemd-restart"@) <==> systemd
            &&& postrm.contains("postrm-systemd"@) <==> systemd
            &&& postrm.contains("postrm-systemd-reload"@) <==> systemd
            &&& postinst.contains("postinst-sysv"@) <==> sysv
            &&& prerm.contains("prerm-sysv"@) <==> sysv
            &&& postrm.contains("postrm-sysv"@) <==> sysv
            &&& postinst.contains("postinst-upstart"@) <==> init is Upstart
            &&& prerm.contains("prerm-upstart"@) <==> init is Upstart
        }),
{
    reveal_strlit("postinst-npm-install");
    reveal_strlit("postinst-account");
    reveal_strlit("postinst-logdir");
    reveal_strlit("postinst-systemd-enable");
    reveal_strlit("postinst-systemd-restart");
    reveal_strlit("postinst-sysv");
    reveal_strlit("postinst-upstart");
    reveal_strlit("prerm-systemd-restart");
    reveal_strlit("prerm-sysv");
    reveal_strlit("prerm-upstart");
    reveal_strlit("postrm-systemd");
    reveal_strlit("postrm-sysv");
    reveal_strlit("postrm-purge");
    reveal_strlit("postrm-systemd-reload");
    assert("postinst-npm-install"@.len() == 20);
    assert("postinst-account"@.len() == 16);
    assert("postinst-logdir"@.len() == 15);
    assert("postinst-systemd-enable"@.len() == 23);
    assert("postinst-systemd-restart"@.len() == 24);
    assert("postinst-sysv"@.len() == 13);
    assert("postinst-upstart"@.len() == 16);
    assert("prerm-systemd-restart"@.len() == 21);
    assert("prerm-sysv"@.len() == 10);
    assert("prerm-upstart"@.len() == 13);
    assert("postrm-systemd"@.len() == 14);
    assert("postrm-sysv"@.len() == 11);
    assert("postrm-purge"@.len() == 12);
    assert("postrm-systemd-reload"@.len() == 21);
    assert("postinst-account"@[9] == 'a');
    assert("postinst-upstart"@[9] == 'u');
    selections_hold::<Seq<char>>();
}

/// A package with a service creates its account and its log directory on installation and
/// purges them on removal; the dependencies are installed where, and only where, that was asked
/// for. No script runs before the files are unpacked.
pub proof fn what_is_created_is_purged(init: InitSystem, strategy: InstallStrategy)
    ensures
        ({
            let postinst = chosen(Script::Postinst, init, strategy);
            let postrm = chosen(Script::Postrm, init, strategy);
            &&& chosen(Script::Preinst, init, strategy).len() == 0
            &&& postinst.contains("postinst-account"@) <==> !(init is NoInit)
            &&& postinst.contains("postinst-logdir"@) <==> !(init is NoInit)
            &&& postrm.contains("postrm-purge"@) <==> !(init is NoInit)
            &&& postinst.contains("postinst-npm-install"@) <==> strategy is NpmInstall
        }),
{
    reveal_strlit("postinst-npm-install");
    reveal_strlit("postinst-account");
    reveal_strlit("postinst-logdir");
    reveal_strlit("postinst-systemd-enable");
    reveal_strlit("postinst-systemd-restart");
    reveal_strlit("postinst-sysv");
    reveal_strlit("postinst-upstart");
    reveal_strlit("postrm-systemd");
    reveal_strlit("postrm-sysv");
    reveal_strlit("postrm-purge");
    reveal_strlit("postrm-systemd-reload");
    assert("postinst-npm-install"@.len() == 20);
    assert("postinst-account"@.len() == 16);
    assert("postinst-logdir"@.len() == 15);
    assert("postinst-systemd-enable"@.len() == 23);
    assert("postinst-systemd-restart"@.len() == 24);
    assert("postinst-sysv"@.len() == 13);
    assert("postinst-upstart"@.len() == 16);
    assert("postrm-systemd"@.len() == 14);
    assert("postrm-sysv"@.len() == 11);
    assert("postrm-purge"@.len() == 12);
    assert("postrm-systemd-reload"@.len() == 21);
    assert("postinst-account"@[9] == 'a');
    assert("postinst-upstart"@[9] == 'u');
    selections_hold::<Seq<char>>();
}

/// What a script does, it does in the order its parts need: dependencies are there before the
/// account, the account before its log directory, both before anything is started; a unit is
/// enabled before it is started; and the reload comes last, after what it must no longer see.
pub proof fn scripts_do_things_in_order(init: InitSystem, strategy: InstallStrategy)
    requires
        !(init is NoInit),
    ensures
        ({
            let p = chosen(Script::Postinst, init, strategy);
            let r = chosen(Script::Postrm, init, strategy);
            let first = if strategy is NpmInstall {
                1int
            } else {
                0
            };
            &&& strategy is NpmInstall ==> p[0] == "postinst-npm-install"@
            &&& p.len() >= first + 2
            &&& p[first] == "postinst-account"@
            &&& p[first + 1] == "postinst-logdir"@
            &&& (init is Auto || init is Systemd) ==> p.len() >= first + 4 && p[first + 2]
                == "postinst-systemd-enable"@ && p[first + 3] == "postinst-systemd-restart"@
            &&& (init is Auto || init is Systemd) ==> r.len() >= 2 && r[0] == "postrm-systemd"@
                && r.last() == "postrm-systemd-reload"@ && r[r.len() - 2] == "postrm-purge"@
            &&& !(init is Auto || init is Systemd) ==> r.len() >= 1 && r.last() == "postrm-purge"@
        }),
{
}

/// What a package declares for its scripts is what they call: what creates its account with any
/// service, and what serves systemd where systemd is served; nothing else.
pub proof fn nothing_more_is_required(init: InitSystem, strategy: InstallStrategy)
    ensures
        required(init, strategy) == (if init is NoInit {
            Seq::<Seq<char>>::empty()
        } else if init is Auto || init is Systemd {
            seq!["adduser"@, "init-system-helpers (>= 1.54)"@]
        } else {
            seq!["adduser"@]
        }),
{
    what_is_enabled_is_stopped_and_cleaned_up(init, strategy);
    what_is_created_is_purged(init, strategy);
    let systemd = init is Auto || init is Systemd;
    if !(init is NoInit) {
        assert(chosen(Script::Postinst, init, strategy).contains("postinst-account"@));
        assert(composed_from("postinst-account"@, init, strategy));
    }
    if systemd {
        assert(chosen(Script::Postinst, init, strategy).contains("postinst-systemd-enable"@));
        assert(composed_from("postinst-systemd-enable"@, init, strategy));
    }
    nowhere_else(init, strategy);
    assert(required(init, strategy) =~= (if init is NoInit {
        Seq::<Seq<char>>::empty()
    } else if systemd {
        seq!["adduser"@, "init-system-helpers (>= 1.54)"@]
    } else {
        seq!["adduser"@]
    }));
}

/// A snippet stands in no script but its own.
proof fn nowhere_else(init: InitSystem, strategy: InstallStrategy)
    ensures
        composed_from("postinst-account"@, init, strategy) ==> !(init is NoInit),
        composed_from("postrm-purge"@, init, strategy) ==> !(init is NoInit),
        composed_from("postinst-systemd-enable"@, init, strategy) ==> init is Auto || init
            is Systemd,
        composed_from("postinst-systemd-restart"@, init, strategy) ==> init is Auto || init
            is Systemd,
        composed_from("prerm-systemd-restart"@, init, strategy) ==> init is Auto || init is Systemd,
        composed_from("postrm-systemd"@, init, strategy) ==> init is Auto || init is Systemd,
{
    reveal_strlit("postinst-npm-install");
    reveal_strlit("postinst-account");
    reveal_strlit("postinst-logdir");
    reveal_strlit("postinst-systemd-enable");
    reveal_strlit("postinst-systemd-restart");
    reveal_strlit("postinst-sysv");
    reveal_strlit("postinst-upstart");
    reveal_strlit("prerm-systemd-restart");
    reveal_strlit("prerm-sysv");
    reveal_strlit("prerm-upstart");
    reveal_strlit("postrm-systemd");
    reveal_strlit("postrm-sysv");
    reveal_strlit("postrm-purge");
    reveal_strlit("postrm-systemd-reload");
    assert("postinst-npm-install"@.len() == 20);
    assert("postinst-account"@.len() == 16 && "postinst-account"@[9] == 'a');
    assert("postinst-logdir"@.len() == 15);
    assert("postinst-systemd-enable"@.len() == 23);
    assert("postinst-systemd-restart"@.len() == 24);
    assert("postinst-sysv"@.len() == 13 && "postinst-sysv"@[1] == 'o');
    assert("postinst-upstart"@.len() == 16 && "postinst-upstart"@[9] == 'u');
    assert("prerm-systemd-restart"@.len() == 21 && "prerm-systemd-restart"@[1] == 'r');
    assert("prerm-sysv"@.len() == 10);
    assert("prerm-upstart"@.len() == 13 && "prerm-upstart"@[1] == 'r');
    assert("postrm-systemd"@.len() == 14);
    assert("postrm-sysv"@.len() == 11);
    assert("postrm-purge"@.len() == 12);
    assert("postrm-systemd-reload"@.len() == 21 && "postrm-systemd-reload"@[1] == 'o');
    selections_hold::<Seq<char>>();
}

/// Every script runs under the shell, stops at the first command that fails and ends well where
/// none did; what stands between is its snippets.
pub proof fn every_script_stops_at_a_failure(
    script: Script,
    init: InitSystem,
    strategy: InstallStrategy,
    values: Map<Seq<char>, Seq<char>>,
)
    requires
        composed(script, init, strategy, values) is Ok,
    ensures
        ({
            let text = composed(script, init, strategy, values)->Ok_0;
            let head = "#!/bin/sh\n# This file was autogenerated by nativepkg "@ + generator_of(
                values,
            ) + "\nset -e\n"@;
            rendered_all(
                chosen(script, init, strategy),
                snippet_table(),
                values,
                "\n"@,
            ) matches Ok(body) && text == head + body + "\nexit 0\n"@
        }),
{
}

} // verus!
