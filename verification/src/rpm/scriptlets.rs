//! Composing RPM scriptlets from named snippets.
//!
//! RPM's `$1` is a count of this package after the operation (1 install, 2 upgrade, 0 erase)
//! where dpkg's is an action word, there is no purge distinct from the final erase, and the
//! unit lifecycle goes through `systemctl preset` and `try-restart`.

use vstd::prelude::*;

use crate::catalogue::{
    generator, generator_of, holds, look_up, looked_up, names, names_of, only_if, render_all,
    rendered_all, selections_hold, table_of,
};
use crate::error::{outcome, ErrorView, Result};
use crate::npm::{InitSystem, InstallStrategy};
use crate::rpm::snippets::{
    POSTUN_PURGE, POSTUN_SYSTEMD, POST_LOGDIR, POST_NPM_INSTALL, POST_SYSTEMD, POST_SYSV,
    PREUN_SYSTEMD, PREUN_SYSV, PRE_ACCOUNT,
};
use crate::strings::{lists, same, sorted_members, views};
use crate::template::Variables;

verus! {

/// POSIX `sh`, RPM's default scriptlet interpreter.
pub const SHEBANG: &'static str = "#!/bin/sh\n# This file was autogenerated by nativepkg ";

/// RPM's four scriptlet slots; `preun` and `postun` run before and after erase.
#[derive(Debug, Clone, Copy, PartialEq, Eq, PartialOrd, Ord, Structural)]
pub enum Scriptlet {
    Pre,
    Post,
    Preun,
    Postun,
}

impl Scriptlet {
    pub open spec fn spelling(self) -> Seq<char> {
        match self {
            Scriptlet::Pre => "pre"@,
            Scriptlet::Post => "post"@,
            Scriptlet::Preun => "preun"@,
            Scriptlet::Postun => "postun"@,
        }
    }

    /// RPM's own name for the slot, without the leading `%`.
    pub fn name(self) -> (r: &'static str)
        ensures
            r@ == self.spelling(),
    {
        match self {
            Scriptlet::Pre => "pre",
            Scriptlet::Post => "post",
            Scriptlet::Preun => "preun",
            Scriptlet::Postun => "postun",
        }
    }

    pub fn all() -> (r: [Self; 4])
        ensures
            r@ == seq![Scriptlet::Pre, Scriptlet::Post, Scriptlet::Preun, Scriptlet::Postun],
    {
        let r = [Scriptlet::Pre, Scriptlet::Post, Scriptlet::Preun, Scriptlet::Postun];
        assert(r@ =~= seq![
            Scriptlet::Pre,
            Scriptlet::Post,
            Scriptlet::Preun,
            Scriptlet::Postun,
        ]);
        r
    }
}

/// The snippets, by name.
pub open spec fn snippet_table() -> Seq<(Seq<char>, Seq<char>)> {
    seq![
        ("pre-account"@, PRE_ACCOUNT@),
        ("post-logdir"@, POST_LOGDIR@),
        ("post-npm-install"@, POST_NPM_INSTALL@),
        ("post-systemd"@, POST_SYSTEMD@),
        ("preun-systemd"@, PREUN_SYSTEMD@),
        ("postun-systemd"@, POSTUN_SYSTEMD@),
        ("postun-purge"@, POSTUN_PURGE@),
        ("post-sysv"@, POST_SYSV@),
        ("preun-sysv"@, PREUN_SYSV@),
    ]
}

fn snippets() -> (r: Vec<(&'static str, &'static str)>)
    ensures
        table_of(r@) == snippet_table(),
{
    let r: Vec<(&'static str, &'static str)> = vec![
        ("pre-account", PRE_ACCOUNT),
        ("post-logdir", POST_LOGDIR),
        ("post-npm-install", POST_NPM_INSTALL),
        ("post-systemd", POST_SYSTEMD),
        ("preun-systemd", PREUN_SYSTEMD),
        ("postun-systemd", POSTUN_SYSTEMD),
        ("postun-purge", POSTUN_PURGE),
        ("post-sysv", POST_SYSV),
        ("preun-sysv", PREUN_SYSV),
    ];
    assert(table_of(r@) =~= snippet_table());
    r
}

/// Every snippet name, sorted.
pub fn snippet_names() -> (r: Vec<&'static str>)
    ensures
        views(r@) == sorted_members(names_of(snippet_table()).to_set()),
        lists(views(r@), names_of(snippet_table()).to_set()),
{
    names(&snippets())
}

/// The source of one snippet; the error lists the valid names.
pub fn snippet(name: &str) -> (r: Result<&'static str>)
    ensures
        outcome(r) == looked_up("snippet"@, snippet_table(), name@),
{
    look_up("snippet", &snippets(), name)
}

/// Whether the scriptlets apply the preset policy to the unit.
pub open spec fn presets(init: InitSystem) -> bool {
    init is Auto || init is Systemd
}

/// Which snippets a scriptlet is composed from, in order. Upstart is absent: no RPM
/// distribution reads its job files.
pub open spec fn chosen(
    scriptlet: Scriptlet,
    init: InitSystem,
    strategy: InstallStrategy,
) -> Seq<Seq<char>> {
    let systemd = init.serves(InitSystem::Systemd);
    let sysv = init.serves(InitSystem::Sysv);
    let service = !(init is NoInit);
    match scriptlet {
        Scriptlet::Pre => only_if(service, seq!["pre-account"@]),
        Scriptlet::Post => only_if(strategy is NpmInstall, seq!["post-npm-install"@]) + only_if(
            service,
            seq!["post-logdir"@],
        ) + only_if(presets(init), seq!["post-systemd"@]) + only_if(sysv, seq!["post-sysv"@]),
        Scriptlet::Preun => only_if(systemd, seq!["preun-systemd"@]) + only_if(
            sysv,
            seq!["preun-sysv"@],
        ),
        Scriptlet::Postun => only_if(systemd, seq!["postun-systemd"@]) + only_if(
            service,
            seq!["postun-purge"@],
        ),
    }
}

/// Which snippets a scriptlet is composed from. Selected at build time, so a package built for
/// systemd carries no System V logic.
pub fn snippets_for(
    scriptlet: Scriptlet,
    init: InitSystem,
    strategy: InstallStrategy,
) -> (r: Vec<&'static str>)
    ensures
        views(r@) == chosen(scriptlet, init, strategy),
{
    let mut r: Vec<&'static str> = Vec::new();
    if init == InitSystem::NoInit {
        if scriptlet == Scriptlet::Post && strategy == InstallStrategy::NpmInstall {
            r.push("post-npm-install");
        }
        assert(views(r@) =~= chosen(scriptlet, init, strategy));
        return r;
    }
    match scriptlet {
        Scriptlet::Pre => {
            r.push("pre-account");
        },
        Scriptlet::Post => {
            if strategy == InstallStrategy::NpmInstall {
                r.push("post-npm-install");
            }
            r.push("post-logdir");
            if uses_preset(init) {
                r.push("post-systemd");
            }
            if init.uses(InitSystem::Sysv) {
                r.push("post-sysv");
            }
        },
        Scriptlet::Preun => {
            if init.uses(InitSystem::Systemd) {
                r.push("preun-systemd");
            }
            if init.uses(InitSystem::Sysv) {
                r.push("preun-sysv");
            }
        },
        Scriptlet::Postun => {
            if init.uses(InitSystem::Systemd) {
                r.push("postun-systemd");
            }
            r.push("postun-purge");
        },
    }
    assert(views(r@) =~= chosen(scriptlet, init, strategy));
    r
}

/// Whether the scriptlets will `systemctl preset` the unit, and so whether the package must
/// ship the preset policy. One predicate for both, so the two cannot drift.
pub fn uses_preset(init: InitSystem) -> (b: bool)
    ensures
        b == presets(init),
{
    init == InitSystem::Auto || init == InitSystem::Systemd
}

/// Whether some scriptlet is composed from the snippet called `name`.
pub open spec fn composed_from(name: Seq<char>, init: InitSystem, strategy: InstallStrategy) -> bool {
    exists|scriptlet: Scriptlet| #[trigger] chosen(scriptlet, init, strategy).contains(name)
}

/// The packages the scriptlets call.
pub open spec fn required(init: InitSystem, strategy: InstallStrategy) -> Seq<Seq<char>> {
    only_if(
        composed_from("pre-account"@, init, strategy) || composed_from(
            "postun-purge"@,
            init,
            strategy,
        ),
        seq!["shadow-utils"@],
    ) + only_if(
        composed_from("post-systemd"@, init, strategy) || composed_from(
            "preun-systemd"@,
            init,
            strategy,
        ) || composed_from("postun-systemd"@, init, strategy),
        seq!["systemd"@],
    )
}

/// Whether some scriptlet is composed from the snippet called `name`.
fn any_uses(name: &str, init: InitSystem, strategy: InstallStrategy) -> (b: bool)
    ensures
        b == composed_from(name@, init, strategy),
{
    let b = holds(&snippets_for(Scriptlet::Pre, init, strategy), name) || holds(
        &snippets_for(Scriptlet::Post, init, strategy),
        name,
    ) || holds(&snippets_for(Scriptlet::Preun, init, strategy), name) || holds(
        &snippets_for(Scriptlet::Postun, init, strategy),
        name,
    );
    proof {
        if composed_from(name@, init, strategy) {
            let scriptlet = choose|scriptlet: Scriptlet| #[trigger]
                chosen(scriptlet, init, strategy).contains(name@);
            match scriptlet {
                Scriptlet::Pre => {},
                Scriptlet::Post => {},
                Scriptlet::Preun => {},
                Scriptlet::Postun => {},
            }
        }
    }
    b
}

/// The packages this configuration's scriptlets call. Declared beside the snippet selection so
/// the two cannot disagree.
pub fn required_packages(init: InitSystem, strategy: InstallStrategy) -> (r: Vec<&'static str>)
    ensures
        views(r@) == required(init, strategy),
{
    let mut r: Vec<&'static str> = Vec::new();
    if any_uses("pre-account", init, strategy) || any_uses("postun-purge", init, strategy) {
        // `useradd`, `groupadd`, `userdel` and `groupdel`.
        r.push("shadow-utils");
    }
    if any_uses("post-systemd", init, strategy) || any_uses("preun-systemd", init, strategy)
        || any_uses("postun-systemd", init, strategy) {
        r.push("systemd");
    }
    assert(views(r@) =~= required(init, strategy));
    r
}

/// The dependency `%pre` itself calls.
pub open spec fn early(name: Seq<char>) -> bool {
    name == "shadow-utils"@
}

/// Whether `%pre` itself calls this dependency, which makes it `Requires(pre)`.
pub fn runs_before_install(name: &str) -> (b: bool)
    ensures
        b == early(name@),
{
    same(name, "shadow-utils")
}

/// One scriptlet. No `set -e`: RPM aborts the whole transaction when a scriptlet fails.
pub open spec fn composed(
    scriptlet: Scriptlet,
    init: InitSystem,
    strategy: InstallStrategy,
    values: Map<Seq<char>, Seq<char>>,
) -> core::result::Result<Seq<char>, ErrorView> {
    match rendered_all(chosen(scriptlet, init, strategy), snippet_table(), values, "\n"@) {
        Err(e) => Err(e),
        Ok(body) => Ok(SHEBANG@ + generator_of(values) + "\n"@ + body + "\nexit 0\n"@),
    }
}

/// Composes one scriptlet. Fails when a snippet references a variable the vocabulary does not
/// supply.
pub fn compose(
    scriptlet: Scriptlet,
    init: InitSystem,
    strategy: InstallStrategy,
    variables: &Variables,
) -> (r: Result<String>)
    ensures
        outcome(r) == composed(scriptlet, init, strategy, variables@),
{
    let parts = snippets_for(scriptlet, init, strategy);
    let body = match render_all(&parts, &snippets(), variables, "\n") {
        Err(e) => {
            return Err(e);
        },
        Ok(body) => body,
    };
    let mut out = SHEBANG.to_owned();
    out.append(generator(variables));
    out.append("\n");
    out.append(body.as_str());
    out.append("\nexit 0\n");
    Ok(out)
}

// ---- laws -----------------------------------------------------------------------------

/// Every snippet a scriptlet can be composed from exists.
pub proof fn chosen_snippets_exist(
    scriptlet: Scriptlet,
    init: InitSystem,
    strategy: InstallStrategy,
)
    ensures
        forall|name: Seq<char>| #[trigger]
            chosen(scriptlet, init, strategy).contains(name) ==> names_of(
                snippet_table(),
            ).contains(name),
{
    let all = names_of(snippet_table());
    assert(all[0] == "pre-account"@);
    assert(all[1] == "post-logdir"@);
    assert(all[2] == "post-npm-install"@);
    assert(all[3] == "post-systemd"@);
    assert(all[4] == "preun-systemd"@);
    assert(all[5] == "postun-systemd"@);
    assert(all[6] == "postun-purge"@);
    assert(all[7] == "post-sysv"@);
    assert(all[8] == "preun-sysv"@);
}

/// The preset policy is shipped exactly where a scriptlet applies it.
pub proof fn preset_agrees_with_selection(init: InitSystem, strategy: InstallStrategy)
    ensures
        presets(init) <==> chosen(Scriptlet::Post, init, strategy).contains("post-systemd"@),
{
    reveal_strlit("post-npm-install");
    reveal_strlit("post-logdir");
    reveal_strlit("post-systemd");
    reveal_strlit("post-sysv");
    let post = chosen(Scriptlet::Post, init, strategy);
    let npm = only_if(strategy is NpmInstall, seq!["post-npm-install"@]);
    if presets(init) {
        assert(post[npm.len() as int + 1] == "post-systemd"@);
    } else {
        assert forall|i: int| 0 <= i < post.len() implies #[trigger] post[i]
            != "post-systemd"@ by {
            let s = post[i];
            assert("post-systemd"@[5] == 's' && "post-systemd"@.len() == 12);
            assert(s.len() != 12);
        }
    }
}

/// What the scriptlets call is declared, and a package without a service declares nothing.
pub proof fn what_scriptlets_call_is_required(init: InitSystem, strategy: InstallStrategy)
    ensures
        !(init is NoInit) ==> required(init, strategy).contains("shadow-utils"@),
        presets(init) ==> required(init, strategy).contains("systemd"@),
        init is NoInit ==> required(init, strategy) == Seq::<Seq<char>>::empty(),
{
    reveal_strlit("post-npm-install");
    reveal_strlit("pre-account");
    reveal_strlit("postun-purge");
    reveal_strlit("post-systemd");
    reveal_strlit("preun-systemd");
    reveal_strlit("postun-systemd");
    if init is NoInit {
        assert("post-npm-install"@.len() == 16);
        assert(required(init, strategy) =~= Seq::<Seq<char>>::empty());
    } else {
        assert(chosen(Scriptlet::Pre, init, strategy)[0] == "pre-account"@);
        assert(chosen(Scriptlet::Pre, init, strategy).contains("pre-account"@));
        assert(required(init, strategy)[0] == "shadow-utils"@);
        if presets(init) {
            assert(chosen(Scriptlet::Preun, init, strategy)[0] == "preun-systemd"@);
            assert(chosen(Scriptlet::Preun, init, strategy).contains("preun-systemd"@));
            assert(required(init, strategy)[1] == "systemd"@);
        }
    }
}

/// Each init system whose service the package enables is the one it stops on removal, and a unit
/// it enabled is reloaded after removal: a snippet stands in its scriptlet exactly where its init
/// system is served.
pub proof fn what_is_enabled_is_stopped(init: InitSystem, strategy: InstallStrategy)
    ensures
        ({
            let post = chosen(Scriptlet::Post, init, strategy);
            let preun = chosen(Scriptlet::Preun, init, strategy);
            let postun = chosen(Scriptlet::Postun, init, strategy);
            let systemd = init is Auto || init is Systemd;
            let sysv = init is Auto || init is Sysv;
            &&& post.contains("post-systemd"@) <==> systemd
            &&& preun.contains("preun-systemd"@) <==> systemd
            &&& postun.contains("postun-systemd"@) <==> systemd
            &&& post.contains("post-sysv"@) <==> sysv
            &&& preun.contains("preun-sysv"@) <==> sysv
        }),
{
    reveal_strlit("pre-account");
    reveal_strlit("post-logdir");
    reveal_strlit("post-npm-install");
    reveal_strlit("post-systemd");
    reveal_strlit("preun-systemd");
    reveal_strlit("postun-systemd");
    reveal_strlit("postun-purge");
    reveal_strlit("post-sysv");
    reveal_strlit("preun-sysv");
    assert("pre-account"@.len() == 11);
    assert("post-logdir"@.len() == 11);
    assert("post-npm-install"@.len() == 16);
    assert("post-systemd"@.len() == 12);
    assert("preun-systemd"@.len() == 13);
    assert("postun-systemd"@.len() == 14);
    assert("postun-purge"@.len() == 12);
    assert("post-sysv"@.len() == 9);
    assert("preun-sysv"@.len() == 10);
    selections_hold::<Seq<char>>();
}

/// A package with a service creates its account before its files are unpacked, its log directory
/// after, and purges both on removal; the dependencies are installed where, and only where, that
/// was asked for, and first of all.
pub proof fn what_is_created_is_purged(init: InitSystem, strategy: InstallStrategy)
    ensures
        ({
            let post = chosen(Scriptlet::Post, init, strategy);
            let postun = chosen(Scriptlet::Postun, init, strategy);
            &&& chosen(Scriptlet::Pre, init, strategy).contains("pre-account"@) <==> !(init is NoInit)
            &&& post.contains("post-logdir"@) <==> !(init is NoInit)
            &&& postun.contains("postun-purge"@) <==> !(init is NoInit)
            &&& !(init is NoInit) ==> postun.last() == "postun-purge"@
            &&& post.contains("post-npm-install"@) <==> strategy is NpmInstall
            &&& strategy is NpmInstall ==> post[0] == "post-npm-install"@
        }),
{
    reveal_strlit("pre-account");
    reveal_strlit("post-logdir");
    reveal_strlit("post-npm-install");
    reveal_strlit("post-systemd");
    reveal_strlit("postun-systemd");
    reveal_strlit("postun-purge");
    reveal_strlit("post-sysv");
    assert("pre-account"@.len() == 11);
    assert("post-logdir"@.len() == 11);
    assert("post-npm-install"@.len() == 16);
    assert("post-systemd"@.len() == 12);
    assert("postun-systemd"@.len() == 14);
    assert("postun-purge"@.len() == 12);
    assert("post-sysv"@.len() == 9);
    selections_hold::<Seq<char>>();
}

/// What a package declares for its scriptlets is what they call: what creates its account with any
/// service, and systemd where systemd is served; nothing else.
pub proof fn nothing_more_is_required(init: InitSystem, strategy: InstallStrategy)
    ensures
        required(init, strategy) == (if init is NoInit {
            Seq::<Seq<char>>::empty()
        } else if init is Auto || init is Systemd {
            seq!["shadow-utils"@, "systemd"@]
        } else {
            seq!["shadow-utils"@]
        }),
{
    let systemd = init is Auto || init is Systemd;
    what_is_enabled_is_stopped(init, strategy);
    what_is_created_is_purged(init, strategy);
    if !(init is NoInit) {
        assert(chosen(Scriptlet::Pre, init, strategy).contains("pre-account"@));
        assert(composed_from("pre-account"@, init, strategy));
    }
    if systemd {
        assert(chosen(Scriptlet::Preun, init, strategy).contains("preun-systemd"@));
        assert(composed_from("preun-systemd"@, init, strategy));
    }
    nowhere_else(init, strategy);
    assert(required(init, strategy) =~= (if init is NoInit {
        Seq::<Seq<char>>::empty()
    } else if systemd {
        seq!["shadow-utils"@, "systemd"@]
    } else {
        seq!["shadow-utils"@]
    }));
}

/// A snippet stands in no scriptlet but its own.
proof fn nowhere_else(init: InitSystem, strategy: InstallStrategy)
    ensures
        composed_from("pre-account"@, init, strategy) ==> !(init is NoInit),
        composed_from("postun-purge"@, init, strategy) ==> !(init is NoInit),
        composed_from("post-systemd"@, init, strategy) ==> init is Auto || init is Systemd,
        composed_from("preun-systemd"@, init, strategy) ==> init is Auto || init is Systemd,
        composed_from("postun-systemd"@, init, strategy) ==> init is Auto || init is Systemd,
{
    reveal_strlit("pre-account");
    reveal_strlit("post-logdir");
    reveal_strlit("post-npm-install");
    reveal_strlit("post-systemd");
    reveal_strlit("preun-systemd");
    reveal_strlit("postun-systemd");
    reveal_strlit("postun-purge");
    reveal_strlit("post-sysv");
    reveal_strlit("preun-sysv");
    assert("pre-account"@.len() == 11 && "pre-account"@[1] == 'r');
    assert("post-logdir"@.len() == 11 && "post-logdir"@[1] == 'o');
    assert("post-npm-install"@.len() == 16);
    assert("post-systemd"@.len() == 12 && "post-systemd"@[4] == '-');
    assert("postun-purge"@.len() == 12 && "postun-purge"@[4] == 'u');
    assert("preun-systemd"@.len() == 13);
    assert("postun-systemd"@.len() == 14);
    assert("post-sysv"@.len() == 9);
    assert("preun-sysv"@.len() == 10);
    selections_hold::<Seq<char>>();
}

/// Every scriptlet runs under the shell and ends well, whatever its commands came to: a scriptlet
/// that fails would abort the whole transaction. What stands between is its snippets.
pub proof fn every_scriptlet_ends_well(
    scriptlet: Scriptlet,
    init: InitSystem,
    strategy: InstallStrategy,
    values: Map<Seq<char>, Seq<char>>,
)
    requires
        composed(scriptlet, init, strategy, values) is Ok,
    ensures
        ({
            let text = composed(scriptlet, init, strategy, values)->Ok_0;
            let head = "#!/bin/sh\n# This file was autogenerated by nativepkg "@ + generator_of(
                values,
            ) + "\n"@;
            rendered_all(
                chosen(scriptlet, init, strategy),
                snippet_table(),
                values,
                "\n"@,
            ) matches Ok(body) && text == head + body + "\nexit 0\n"@
        }),
{
}

} // verus!
