//! What the built-in templates say of a configuration.

use vstd::prelude::*;

use crate::error::ErrorView;
use crate::resolve::ResolvedConfigView;
use crate::strings::{
    bare, first_at, first_at_bounds, text_holds, text_holds_behind, text_holds_inside,
};
use crate::template::{
    a_placeholder_renders_to_its_value, canonical_names, config_variables,
    each_variable_is_the_field_it_names, or_empty, placeholder, plain_text_is_unchanged, rendered,
    synopsis_of, vocabulary_is_what_a_configuration_populates,
};
use crate::templates::{
    EXECUTABLE, SYSTEMD_SERVICE, SYSV_INIT, TMPFILES_CONF, UPSTART_CONF,
};
use crate::text::quoted;

verus! {

/// Whether no brace opens in a text.
#[verifier::opaque]
spec fn unbraced(text: Seq<char>) -> bool {
    forall|i: int| 0 <= i < text.len() ==> #[trigger] text[i] != '{'
}

/// Whether no placeholder opens in a text.
#[verifier::opaque]
spec fn unopened(text: Seq<char>) -> bool {
    forall|i: int| 0 <= i < text.len() - 1 ==> !(#[trigger] text[i] == '{' && text[i + 1] == '{')
}

/// Whether a variable may stand in a placeholder, and has the given value.
#[verifier::opaque]
spec fn stands_for(
    values: Map<Seq<char>, Seq<char>>,
    variable: Seq<char>,
    value: Seq<char>,
) -> bool {
    &&& variable.len() > 0
    &&& bare(variable)
    &&& !variable.contains('}')
    &&& values.dom().contains(variable)
    &&& values[variable] == value
}

proof fn filled_in(
    name: Seq<char>,
    before: Seq<char>,
    variable: Seq<char>,
    value: Seq<char>,
    rest: Seq<char>,
    after: Seq<char>,
    values: Map<Seq<char>, Seq<char>>,
)
    requires
        unbraced(before),
        stands_for(values, variable, value),
        rendered(name, rest, values) == Ok::<Seq<char>, ErrorView>(after),
    ensures
        rendered(name, before + placeholder(variable) + rest, values) == Ok::<
            Seq<char>,
            ErrorView,
        >(before + value + after),
{
    reveal(unbraced);
    reveal(stands_for);
    a_placeholder_renders_to_its_value(name, before, variable, rest, values);
}

proof fn vocabulary_is_named(
    c: ResolvedConfigView,
    generator_version: Seq<char>,
    version: Seq<char>,
    architecture: Seq<char>,
)
    ensures
        ({
            let values = config_variables(c, generator_version, version, architecture);
            &&& stands_for(values, "generator_version"@, generator_version)
            &&& stands_for(values, "package_name"@, c.package_name)
            &&& stands_for(values, "package_description"@, synopsis_of(c.description))
            &&& stands_for(values, "user"@, c.user)
            &&& stands_for(values, "group"@, c.group)
            &&& stands_for(values, "install_dir"@, c.install_dir)
            &&& stands_for(values, "daemon_entrypoint"@, or_empty(c.daemon_entrypoint))
            &&& stands_for(values, "cli_entrypoint"@, or_empty(c.cli_entrypoint))
            &&& stands_for(values, "package_description_shell"@, quoted(synopsis_of(c.description)))
            &&& stands_for(values, "package_maintainer_shell"@, quoted(c.maintainer))
        }),
{
    let values = config_variables(c, generator_version, version, architecture);
    let all = canonical_names();
    each_variable_is_the_field_it_names(c, generator_version, version, architecture);
    vocabulary_is_what_a_configuration_populates(c, generator_version, version, architecture);
    assert(stands_for(values, "generator_version"@, generator_version)) by {
        reveal_strlit("generator_version");
        reveal(stands_for);
        assert(all[17] == "generator_version"@);
    }
    assert(stands_for(values, "package_name"@, c.package_name)) by {
        reveal_strlit("package_name");
        reveal(stands_for);
        assert(all[0] == "package_name"@);
    }
    assert(stands_for(values, "package_description"@, synopsis_of(c.description))) by {
        reveal_strlit("package_description");
        reveal(stands_for);
        assert(all[2] == "package_description"@);
    }
    assert(stands_for(values, "user"@, c.user)) by {
        reveal_strlit("user");
        reveal(stands_for);
        assert(all[10] == "user"@);
    }
    assert(stands_for(values, "group"@, c.group)) by {
        reveal_strlit("group");
        reveal(stands_for);
        assert(all[11] == "group"@);
    }
    assert(stands_for(values, "install_dir"@, c.install_dir)) by {
        reveal_strlit("install_dir");
        reveal(stands_for);
        assert(all[9] == "install_dir"@);
    }
    assert(stands_for(values, "daemon_entrypoint"@, or_empty(c.daemon_entrypoint))) by {
        reveal_strlit("daemon_entrypoint");
        reveal(stands_for);
        assert(all[19] == "daemon_entrypoint"@);
    }
    assert(stands_for(values, "cli_entrypoint"@, or_empty(c.cli_entrypoint))) by {
        reveal_strlit("cli_entrypoint");
        reveal(stands_for);
        assert(all[18] == "cli_entrypoint"@);
    }
    assert(stands_for(values, "package_description_shell"@, quoted(synopsis_of(c.description)))) by {
        reveal_strlit("package_description_shell");
        reveal(stands_for);
        assert(all[3] == "package_description_shell"@);
    }
    assert(stands_for(values, "package_maintainer_shell"@, quoted(c.maintainer))) by {
        reveal_strlit("package_maintainer_shell");
        reveal(stands_for);
        assert(all[5] == "package_maintainer_shell"@);
    }
}

/// Text in which no placeholder opens renders to itself.
proof fn unopened_text_is_unchanged(
    name: Seq<char>,
    text: Seq<char>,
    values: Map<Seq<char>, Seq<char>>,
)
    requires
        unopened(text),
    ensures
        rendered(name, text, values) == Ok::<Seq<char>, ErrorView>(text),
{
    reveal(unopened);
    reveal_strlit("{{");
    first_at_bounds(text, 0, "{{"@);
    if first_at(text, 0, "{{"@) is Some {
        let k = first_at(text, 0, "{{"@)->0;
        assert(text.subrange(k, k + 2)[0] == text[k]);
        assert(text.subrange(k, k + 2)[1] == text[k + 1]);
    }
    plain_text_is_unchanged(name, text, values);
}

// ---- the unit ------------------------------------------------------------------------------

spec fn unit_layout() -> Seq<char> {
    let t11 = "\n\n[Install]\nWantedBy=multi-user.target\n"@;
    let t10 = " $DAEMON_ARGS\nRestart=always\nRestartSec=5\nNoNewPrivileges=yes\nPrivateTmp=yes\nProtectHome=yes\nProtectSystem=strict\nReadWritePaths=/var/log/"@ + placeholder("package_name"@) + t11;
    let t9 = "/app/"@ + placeholder("daemon_entrypoint"@) + t10;
    let t8 = "/"@ + placeholder("package_name"@) + t9;
    let t7 = "\nExecStart="@ + placeholder("install_dir"@) + t8;
    let t6 = "/app\nEnvironmentFile=-/etc/default/"@ + placeholder("package_name"@) + t7;
    let t5 = "/"@ + placeholder("package_name"@) + t6;
    let t4 = "\nWorkingDirectory="@ + placeholder("install_dir"@) + t5;
    let t3 = "\nGroup="@ + placeholder("group"@) + t4;
    let t2 = "\nAfter=network-online.target\nWants=network-online.target\n\n[Service]\nType=simple\nUser="@ + placeholder("user"@) + t3;
    let t1 = "\n[Unit]\nDescription="@ + placeholder("package_description"@) + t2;
    let t0 = "# Generated by nativepkg "@ + placeholder("generator_version"@) + t1;
    t0
}

spec fn unit_text(c: ResolvedConfigView, generator_version: Seq<char>) -> Seq<char> {
    let r11 = "\n\n[Install]\nWantedBy=multi-user.target\n"@;
    let r10 = " $DAEMON_ARGS\nRestart=always\nRestartSec=5\nNoNewPrivileges=yes\nPrivateTmp=yes\nProtectHome=yes\nProtectSystem=strict\nReadWritePaths=/var/log/"@ + c.package_name + r11;
    let r9 = "/app/"@ + or_empty(c.daemon_entrypoint) + r10;
    let r8 = "/"@ + c.package_name + r9;
    let r7 = "\nExecStart="@ + c.install_dir + r8;
    let r6 = "/app\nEnvironmentFile=-/etc/default/"@ + c.package_name + r7;
    let r5 = "/"@ + c.package_name + r6;
    let r4 = "\nWorkingDirectory="@ + c.install_dir + r5;
    let r3 = "\nGroup="@ + c.group + r4;
    let r2 = "\nAfter=network-online.target\nWants=network-online.target\n\n[Service]\nType=simple\nUser="@ + c.user + r3;
    let r1 = "\n[Unit]\nDescription="@ + synopsis_of(c.description) + r2;
    let r0 = "# Generated by nativepkg "@ + generator_version + r1;
    r0
}

proof fn unit_is_laid_out()
    ensures
        SYSTEMD_SERVICE@ == unit_layout(),
{
    reveal_strlit(
        "# Generated by nativepkg {{ generator_version }}
[Unit]
Description={{ package_description }}
After=network-online.target
Wants=network-online.target

[Service]
Type=simple
User={{ user }}
Group={{ group }}
WorkingDirectory={{ install_dir }}/{{ package_name }}/app
EnvironmentFile=-/etc/default/{{ package_name }}
ExecStart={{ install_dir }}/{{ package_name }}/app/{{ daemon_entrypoint }} $DAEMON_ARGS
Restart=always
RestartSec=5
NoNewPrivileges=yes
PrivateTmp=yes
ProtectHome=yes
ProtectSystem=strict
ReadWritePaths=/var/log/{{ package_name }}

[Install]
WantedBy=multi-user.target
",
    );
    reveal_strlit("# Generated by nativepkg ");
    reveal_strlit("\n[Unit]\nDescription=");
    reveal_strlit("\nAfter=network-online.target\nWants=network-online.target\n\n[Service]\nType=simple\nUser=");
    reveal_strlit("\nGroup=");
    reveal_strlit("\nWorkingDirectory=");
    reveal_strlit("/");
    reveal_strlit("/app\nEnvironmentFile=-/etc/default/");
    reveal_strlit("\nExecStart=");
    reveal_strlit("/app/");
    reveal_strlit(" $DAEMON_ARGS\nRestart=always\nRestartSec=5\nNoNewPrivileges=yes\nPrivateTmp=yes\nProtectHome=yes\nProtectSystem=strict\nReadWritePaths=/var/log/");
    reveal_strlit("\n\n[Install]\nWantedBy=multi-user.target\n");
    reveal_strlit("generator_version");
    reveal_strlit("package_description");
    reveal_strlit("user");
    reveal_strlit("group");
    reveal_strlit("install_dir");
    reveal_strlit("package_name");
    reveal_strlit("daemon_entrypoint");
    reveal_strlit("{{ ");
    reveal_strlit(" }}");
    assert(SYSTEMD_SERVICE@ =~= unit_layout());
}

proof fn unit_piece_0_is_unbraced()
    ensures
        unbraced("# Generated by nativepkg "@),
{
    reveal_strlit("# Generated by nativepkg ");
    reveal(unbraced);
}

proof fn unit_piece_1_is_unbraced()
    ensures
        unbraced("\n[Unit]\nDescription="@),
{
    reveal_strlit("\n[Unit]\nDescription=");
    reveal(unbraced);
}

proof fn unit_piece_2_is_unbraced()
    ensures
        unbraced("\nAfter=network-online.target\nWants=network-online.target\n\n[Service]\nType=simple\nUser="@),
{
    reveal_strlit("\nAfter=network-online.target\nWants=network-online.target\n\n[Service]\nType=simple\nUser=");
    reveal(unbraced);
}

proof fn unit_piece_3_is_unbraced()
    ensures
        unbraced("\nGroup="@),
{
    reveal_strlit("\nGroup=");
    reveal(unbraced);
}

proof fn unit_piece_4_is_unbraced()
    ensures
        unbraced("\nWorkingDirectory="@),
{
    reveal_strlit("\nWorkingDirectory=");
    reveal(unbraced);
}

proof fn unit_piece_5_is_unbraced()
    ensures
        unbraced("/"@),
{
    reveal_strlit("/");
    reveal(unbraced);
}

proof fn unit_piece_6_is_unbraced()
    ensures
        unbraced("/app\nEnvironmentFile=-/etc/default/"@),
{
    reveal_strlit("/app\nEnvironmentFile=-/etc/default/");
    reveal(unbraced);
}

proof fn unit_piece_7_is_unbraced()
    ensures
        unbraced("\nExecStart="@),
{
    reveal_strlit("\nExecStart=");
    reveal(unbraced);
}

proof fn unit_piece_8_is_unbraced()
    ensures
        unbraced("/app/"@),
{
    reveal_strlit("/app/");
    reveal(unbraced);
}

proof fn unit_piece_9_is_unbraced()
    ensures
        unbraced(" $DAEMON_ARGS\nRestart=always\nRestartSec=5\nNoNewPrivileges=yes\nPrivateTmp=yes\nProtectHome=yes\nProtectSystem=strict\nReadWritePaths=/var/log/"@),
{
    reveal_strlit(" $DAEMON_ARGS\nRestart=always\nRestartSec=5\nNoNewPrivileges=yes\nPrivateTmp=yes\nProtectHome=yes\nProtectSystem=strict\nReadWritePaths=/var/log/");
    reveal(unbraced);
}

proof fn unit_ends_without_a_placeholder()
    ensures
        unopened("\n\n[Install]\nWantedBy=multi-user.target\n"@),
{
    reveal_strlit("\n\n[Install]\nWantedBy=multi-user.target\n");
    reveal(unopened);
}

proof fn unit_is_rendered(
    name: Seq<char>,
    c: ResolvedConfigView,
    generator_version: Seq<char>,
    version: Seq<char>,
    architecture: Seq<char>,
)
    ensures
        rendered(
            name,
            SYSTEMD_SERVICE@,
            config_variables(c, generator_version, version, architecture),
        ) == Ok::<Seq<char>, ErrorView>(unit_text(c, generator_version)),
{
    let values = config_variables(c, generator_version, version, architecture);
    vocabulary_is_named(c, generator_version, version, architecture);
    unit_is_laid_out();
    unit_piece_0_is_unbraced();
    unit_piece_1_is_unbraced();
    unit_piece_2_is_unbraced();
    unit_piece_3_is_unbraced();
    unit_piece_4_is_unbraced();
    unit_piece_5_is_unbraced();
    unit_piece_6_is_unbraced();
    unit_piece_7_is_unbraced();
    unit_piece_8_is_unbraced();
    unit_piece_9_is_unbraced();
    unit_ends_without_a_placeholder();
    let t11 = "\n\n[Install]\nWantedBy=multi-user.target\n"@;
    let t10 = " $DAEMON_ARGS\nRestart=always\nRestartSec=5\nNoNewPrivileges=yes\nPrivateTmp=yes\nProtectHome=yes\nProtectSystem=strict\nReadWritePaths=/var/log/"@ + placeholder("package_name"@) + t11;
    let t9 = "/app/"@ + placeholder("daemon_entrypoint"@) + t10;
    let t8 = "/"@ + placeholder("package_name"@) + t9;
    let t7 = "\nExecStart="@ + placeholder("install_dir"@) + t8;
    let t6 = "/app\nEnvironmentFile=-/etc/default/"@ + placeholder("package_name"@) + t7;
    let t5 = "/"@ + placeholder("package_name"@) + t6;
    let t4 = "\nWorkingDirectory="@ + placeholder("install_dir"@) + t5;
    let t3 = "\nGroup="@ + placeholder("group"@) + t4;
    let t2 = "\nAfter=network-online.target\nWants=network-online.target\n\n[Service]\nType=simple\nUser="@ + placeholder("user"@) + t3;
    let t1 = "\n[Unit]\nDescription="@ + placeholder("package_description"@) + t2;
    let t0 = "# Generated by nativepkg "@ + placeholder("generator_version"@) + t1;
    let r11 = "\n\n[Install]\nWantedBy=multi-user.target\n"@;
    let r10 = " $DAEMON_ARGS\nRestart=always\nRestartSec=5\nNoNewPrivileges=yes\nPrivateTmp=yes\nProtectHome=yes\nProtectSystem=strict\nReadWritePaths=/var/log/"@ + c.package_name + r11;
    let r9 = "/app/"@ + or_empty(c.daemon_entrypoint) + r10;
    let r8 = "/"@ + c.package_name + r9;
    let r7 = "\nExecStart="@ + c.install_dir + r8;
    let r6 = "/app\nEnvironmentFile=-/etc/default/"@ + c.package_name + r7;
    let r5 = "/"@ + c.package_name + r6;
    let r4 = "\nWorkingDirectory="@ + c.install_dir + r5;
    let r3 = "\nGroup="@ + c.group + r4;
    let r2 = "\nAfter=network-online.target\nWants=network-online.target\n\n[Service]\nType=simple\nUser="@ + c.user + r3;
    let r1 = "\n[Unit]\nDescription="@ + synopsis_of(c.description) + r2;
    let r0 = "# Generated by nativepkg "@ + generator_version + r1;
    unopened_text_is_unchanged(name, t11, values);
    filled_in(name, " $DAEMON_ARGS\nRestart=always\nRestartSec=5\nNoNewPrivileges=yes\nPrivateTmp=yes\nProtectHome=yes\nProtectSystem=strict\nReadWritePaths=/var/log/"@, "package_name"@, c.package_name, t11, r11, values);
    filled_in(name, "/app/"@, "daemon_entrypoint"@, or_empty(c.daemon_entrypoint), t10, r10, values);
    filled_in(name, "/"@, "package_name"@, c.package_name, t9, r9, values);
    filled_in(name, "\nExecStart="@, "install_dir"@, c.install_dir, t8, r8, values);
    filled_in(name, "/app\nEnvironmentFile=-/etc/default/"@, "package_name"@, c.package_name, t7, r7, values);
    filled_in(name, "/"@, "package_name"@, c.package_name, t6, r6, values);
    filled_in(name, "\nWorkingDirectory="@, "install_dir"@, c.install_dir, t5, r5, values);
    filled_in(name, "\nGroup="@, "group"@, c.group, t4, r4, values);
    filled_in(name, "\nAfter=network-online.target\nWants=network-online.target\n\n[Service]\nType=simple\nUser="@, "user"@, c.user, t3, r3, values);
    filled_in(name, "\n[Unit]\nDescription="@, "package_description"@, synopsis_of(c.description), t2, r2, values);
    filled_in(name, "# Generated by nativepkg "@, "generator_version"@, generator_version, t1, r1, values);
}

proof fn unit_says_description(c: ResolvedConfigView, generator_version: Seq<char>)
    ensures
        text_holds(
            unit_text(c, generator_version),
            "\nDescription="@ + synopsis_of(c.description) + "\n"@,
        ),
{
    let r11 = "\n\n[Install]\nWantedBy=multi-user.target\n"@;
    let r10 = " $DAEMON_ARGS\nRestart=always\nRestartSec=5\nNoNewPrivileges=yes\nPrivateTmp=yes\nProtectHome=yes\nProtectSystem=strict\nReadWritePaths=/var/log/"@ + c.package_name + r11;
    let r9 = "/app/"@ + or_empty(c.daemon_entrypoint) + r10;
    let r8 = "/"@ + c.package_name + r9;
    let r7 = "\nExecStart="@ + c.install_dir + r8;
    let r6 = "/app\nEnvironmentFile=-/etc/default/"@ + c.package_name + r7;
    let r5 = "/"@ + c.package_name + r6;
    let r4 = "\nWorkingDirectory="@ + c.install_dir + r5;
    let r3 = "\nGroup="@ + c.group + r4;
    let r2 = "\nAfter=network-online.target\nWants=network-online.target\n\n[Service]\nType=simple\nUser="@ + c.user + r3;
    let r1 = "\n[Unit]\nDescription="@ + synopsis_of(c.description) + r2;
    let r0 = "# Generated by nativepkg "@ + generator_version + r1;
    let line = "\nDescription="@ + synopsis_of(c.description) + "\n"@;
    assert("\n[Unit]\nDescription="@ =~= "\n[Unit]"@ + "\nDescription="@) by {
        reveal_strlit("\n[Unit]\nDescription=");
        reveal_strlit("\n[Unit]");
        reveal_strlit("\nDescription=");
    }
    assert("\nAfter=network-online.target\nWants=network-online.target\n\n[Service]\nType=simple\nUser="@ =~= "\n"@ + "After=network-online.target\nWants=network-online.target\n\n[Service]\nType=simple\nUser="@) by {
        reveal_strlit("\nAfter=network-online.target\nWants=network-online.target\n\n[Service]\nType=simple\nUser=");
        reveal_strlit("\n");
        reveal_strlit("After=network-online.target\nWants=network-online.target\n\n[Service]\nType=simple\nUser=");
    }
    let after = "After=network-online.target\nWants=network-online.target\n\n[Service]\nType=simple\nUser="@ + c.user + r3;
    assert(r1 =~= "\n[Unit]"@ + line + after);
    text_holds_inside("\n[Unit]"@, line, after);
    text_holds_behind("# Generated by nativepkg "@ + generator_version, r1, line);
}

proof fn unit_says_user(c: ResolvedConfigView, generator_version: Seq<char>)
    ensures
        text_holds(
            unit_text(c, generator_version),
            "\nUser="@ + c.user + "\n"@,
        ),
{
    let r11 = "\n\n[Install]\nWantedBy=multi-user.target\n"@;
    let r10 = " $DAEMON_ARGS\nRestart=always\nRestartSec=5\nNoNewPrivileges=yes\nPrivateTmp=yes\nProtectHome=yes\nProtectSystem=strict\nReadWritePaths=/var/log/"@ + c.package_name + r11;
    let r9 = "/app/"@ + or_empty(c.daemon_entrypoint) + r10;
    let r8 = "/"@ + c.package_name + r9;
    let r7 = "\nExecStart="@ + c.install_dir + r8;
    let r6 = "/app\nEnvironmentFile=-/etc/default/"@ + c.package_name + r7;
    let r5 = "/"@ + c.package_name + r6;
    let r4 = "\nWorkingDirectory="@ + c.install_dir + r5;
    let r3 = "\nGroup="@ + c.group + r4;
    let r2 = "\nAfter=network-online.target\nWants=network-online.target\n\n[Service]\nType=simple\nUser="@ + c.user + r3;
    let r1 = "\n[Unit]\nDescription="@ + synopsis_of(c.description) + r2;
    let r0 = "# Generated by nativepkg "@ + generator_version + r1;
    let line = "\nUser="@ + c.user + "\n"@;
    assert("\nAfter=network-online.target\nWants=network-online.target\n\n[Service]\nType=simple\nUser="@ =~= "\nAfter=network-online.target\nWants=network-online.target\n\n[Service]\nType=simple"@ + "\nUser="@) by {
        reveal_strlit("\nAfter=network-online.target\nWants=network-online.target\n\n[Service]\nType=simple\nUser=");
        reveal_strlit("\nAfter=network-online.target\nWants=network-online.target\n\n[Service]\nType=simple");
        reveal_strlit("\nUser=");
    }
    assert("\nGroup="@ =~= "\n"@ + "Group="@) by {
        reveal_strlit("\nGroup=");
        reveal_strlit("\n");
        reveal_strlit("Group=");
    }
    let after = "Group="@ + c.group + r4;
    assert(r2 =~= "\nAfter=network-online.target\nWants=network-online.target\n\n[Service]\nType=simple"@ + line + after);
    text_holds_inside("\nAfter=network-online.target\nWants=network-online.target\n\n[Service]\nType=simple"@, line, after);
    text_holds_behind("\n[Unit]\nDescription="@ + synopsis_of(c.description), r2, line);
    text_holds_behind("# Generated by nativepkg "@ + generator_version, r1, line);
}

proof fn unit_says_group(c: ResolvedConfigView, generator_version: Seq<char>)
    ensures
        text_holds(
            unit_text(c, generator_version),
            "\nGroup="@ + c.group + "\n"@,
        ),
{
    let r11 = "\n\n[Install]\nWantedBy=multi-user.target\n"@;
    let r10 = " $DAEMON_ARGS\nRestart=always\nRestartSec=5\nNoNewPrivileges=yes\nPrivateTmp=yes\nProtectHome=yes\nProtectSystem=strict\nReadWritePaths=/var/log/"@ + c.package_name + r11;
    let r9 = "/app/"@ + or_empty(c.daemon_entrypoint) + r10;
    let r8 = "/"@ + c.package_name + r9;
    let r7 = "\nExecStart="@ + c.install_dir + r8;
    let r6 = "/app\nEnvironmentFile=-/etc/default/"@ + c.package_name + r7;
    let r5 = "/"@ + c.package_name + r6;
    let r4 = "\nWorkingDirectory="@ + c.install_dir + r5;
    let r3 = "\nGroup="@ + c.group + r4;
    let r2 = "\nAfter=network-online.target\nWants=network-online.target\n\n[Service]\nType=simple\nUser="@ + c.user + r3;
    let r1 = "\n[Unit]\nDescription="@ + synopsis_of(c.description) + r2;
    let r0 = "# Generated by nativepkg "@ + generator_version + r1;
    let line = "\nGroup="@ + c.group + "\n"@;
    assert("\nWorkingDirectory="@ =~= "\n"@ + "WorkingDirectory="@) by {
        reveal_strlit("\nWorkingDirectory=");
        reveal_strlit("\n");
        reveal_strlit("WorkingDirectory=");
    }
    let after = "WorkingDirectory="@ + c.install_dir + r5;
    assert(r3 =~= Seq::<char>::empty() + line + after);
    text_holds_inside(Seq::<char>::empty(), line, after);
    text_holds_behind("\nAfter=network-online.target\nWants=network-online.target\n\n[Service]\nType=simple\nUser="@ + c.user, r3, line);
    text_holds_behind("\n[Unit]\nDescription="@ + synopsis_of(c.description), r2, line);
    text_holds_behind("# Generated by nativepkg "@ + generator_version, r1, line);
}

proof fn unit_says_directory(c: ResolvedConfigView, generator_version: Seq<char>)
    ensures
        text_holds(
            unit_text(c, generator_version),
            "\nWorkingDirectory="@ + c.install_dir + "/"@ + c.package_name + "/app\n"@,
        ),
{
    let r11 = "\n\n[Install]\nWantedBy=multi-user.target\n"@;
    let r10 = " $DAEMON_ARGS\nRestart=always\nRestartSec=5\nNoNewPrivileges=yes\nPrivateTmp=yes\nProtectHome=yes\nProtectSystem=strict\nReadWritePaths=/var/log/"@ + c.package_name + r11;
    let r9 = "/app/"@ + or_empty(c.daemon_entrypoint) + r10;
    let r8 = "/"@ + c.package_name + r9;
    let r7 = "\nExecStart="@ + c.install_dir + r8;
    let r6 = "/app\nEnvironmentFile=-/etc/default/"@ + c.package_name + r7;
    let r5 = "/"@ + c.package_name + r6;
    let r4 = "\nWorkingDirectory="@ + c.install_dir + r5;
    let r3 = "\nGroup="@ + c.group + r4;
    let r2 = "\nAfter=network-online.target\nWants=network-online.target\n\n[Service]\nType=simple\nUser="@ + c.user + r3;
    let r1 = "\n[Unit]\nDescription="@ + synopsis_of(c.description) + r2;
    let r0 = "# Generated by nativepkg "@ + generator_version + r1;
    let line = "\nWorkingDirectory="@ + c.install_dir + "/"@ + c.package_name + "/app\n"@;
    assert("/app\nEnvironmentFile=-/etc/default/"@ =~= "/app\n"@ + "EnvironmentFile=-/etc/default/"@) by {
        reveal_strlit("/app\nEnvironmentFile=-/etc/default/");
        reveal_strlit("/app\n");
        reveal_strlit("EnvironmentFile=-/etc/default/");
    }
    let after = "EnvironmentFile=-/etc/default/"@ + c.package_name + r7;
    assert(r4 =~= Seq::<char>::empty() + line + after);
    text_holds_inside(Seq::<char>::empty(), line, after);
    text_holds_behind("\nGroup="@ + c.group, r4, line);
    text_holds_behind("\nAfter=network-online.target\nWants=network-online.target\n\n[Service]\nType=simple\nUser="@ + c.user, r3, line);
    text_holds_behind("\n[Unit]\nDescription="@ + synopsis_of(c.description), r2, line);
    text_holds_behind("# Generated by nativepkg "@ + generator_version, r1, line);
}

proof fn unit_says_defaults(c: ResolvedConfigView, generator_version: Seq<char>)
    ensures
        text_holds(
            unit_text(c, generator_version),
            "\nEnvironmentFile=-/etc/default/"@ + c.package_name + "\n"@,
        ),
{
    let r11 = "\n\n[Install]\nWantedBy=multi-user.target\n"@;
    let r10 = " $DAEMON_ARGS\nRestart=always\nRestartSec=5\nNoNewPrivileges=yes\nPrivateTmp=yes\nProtectHome=yes\nProtectSystem=strict\nReadWritePaths=/var/log/"@ + c.package_name + r11;
    let r9 = "/app/"@ + or_empty(c.daemon_entrypoint) + r10;
    let r8 = "/"@ + c.package_name + r9;
    let r7 = "\nExecStart="@ + c.install_dir + r8;
    let r6 = "/app\nEnvironmentFile=-/etc/default/"@ + c.package_name + r7;
    let r5 = "/"@ + c.package_name + r6;
    let r4 = "\nWorkingDirectory="@ + c.install_dir + r5;
    let r3 = "\nGroup="@ + c.group + r4;
    let r2 = "\nAfter=network-online.target\nWants=network-online.target\n\n[Service]\nType=simple\nUser="@ + c.user + r3;
    let r1 = "\n[Unit]\nDescription="@ + synopsis_of(c.description) + r2;
    let r0 = "# Generated by nativepkg "@ + generator_version + r1;
    let line = "\nEnvironmentFile=-/etc/default/"@ + c.package_name + "\n"@;
    assert("/app\nEnvironmentFile=-/etc/default/"@ =~= "/app"@ + "\nEnvironmentFile=-/etc/default/"@) by {
        reveal_strlit("/app\nEnvironmentFile=-/etc/default/");
        reveal_strlit("/app");
        reveal_strlit("\nEnvironmentFile=-/etc/default/");
    }
    assert("\nExecStart="@ =~= "\n"@ + "ExecStart="@) by {
        reveal_strlit("\nExecStart=");
        reveal_strlit("\n");
        reveal_strlit("ExecStart=");
    }
    let after = "ExecStart="@ + c.install_dir + r8;
    assert(r6 =~= "/app"@ + line + after);
    text_holds_inside("/app"@, line, after);
    text_holds_behind("/"@ + c.package_name, r6, line);
    text_holds_behind("\nWorkingDirectory="@ + c.install_dir, r5, line);
    text_holds_behind("\nGroup="@ + c.group, r4, line);
    text_holds_behind("\nAfter=network-online.target\nWants=network-online.target\n\n[Service]\nType=simple\nUser="@ + c.user, r3, line);
    text_holds_behind("\n[Unit]\nDescription="@ + synopsis_of(c.description), r2, line);
    text_holds_behind("# Generated by nativepkg "@ + generator_version, r1, line);
}

proof fn unit_says_command(c: ResolvedConfigView, generator_version: Seq<char>)
    ensures
        text_holds(
            unit_text(c, generator_version),
            "\nExecStart="@ + c.install_dir + "/"@ + c.package_name + "/app/"@ + or_empty(c.daemon_entrypoint) + " "@,
        ),
{
    let r11 = "\n\n[Install]\nWantedBy=multi-user.target\n"@;
    let r10 = " $DAEMON_ARGS\nRestart=always\nRestartSec=5\nNoNewPrivileges=yes\nPrivateTmp=yes\nProtectHome=yes\nProtectSystem=strict\nReadWritePaths=/var/log/"@ + c.package_name + r11;
    let r9 = "/app/"@ + or_empty(c.daemon_entrypoint) + r10;
    let r8 = "/"@ + c.package_name + r9;
    let r7 = "\nExecStart="@ + c.install_dir + r8;
    let r6 = "/app\nEnvironmentFile=-/etc/default/"@ + c.package_name + r7;
    let r5 = "/"@ + c.package_name + r6;
    let r4 = "\nWorkingDirectory="@ + c.install_dir + r5;
    let r3 = "\nGroup="@ + c.group + r4;
    let r2 = "\nAfter=network-online.target\nWants=network-online.target\n\n[Service]\nType=simple\nUser="@ + c.user + r3;
    let r1 = "\n[Unit]\nDescription="@ + synopsis_of(c.description) + r2;
    let r0 = "# Generated by nativepkg "@ + generator_version + r1;
    let line = "\nExecStart="@ + c.install_dir + "/"@ + c.package_name + "/app/"@ + or_empty(c.daemon_entrypoint) + " "@;
    assert(" $DAEMON_ARGS\nRestart=always\nRestartSec=5\nNoNewPrivileges=yes\nPrivateTmp=yes\nProtectHome=yes\nProtectSystem=strict\nReadWritePaths=/var/log/"@ =~= " "@ + "$DAEMON_ARGS\nRestart=always\nRestartSec=5\nNoNewPrivileges=yes\nPrivateTmp=yes\nProtectHome=yes\nProtectSystem=strict\nReadWritePaths=/var/log/"@) by {
        reveal_strlit(" $DAEMON_ARGS\nRestart=always\nRestartSec=5\nNoNewPrivileges=yes\nPrivateTmp=yes\nProtectHome=yes\nProtectSystem=strict\nReadWritePaths=/var/log/");
        reveal_strlit(" ");
        reveal_strlit("$DAEMON_ARGS\nRestart=always\nRestartSec=5\nNoNewPrivileges=yes\nPrivateTmp=yes\nProtectHome=yes\nProtectSystem=strict\nReadWritePaths=/var/log/");
    }
    let after = "$DAEMON_ARGS\nRestart=always\nRestartSec=5\nNoNewPrivileges=yes\nPrivateTmp=yes\nProtectHome=yes\nProtectSystem=strict\nReadWritePaths=/var/log/"@ + c.package_name + r11;
    assert(r7 =~= Seq::<char>::empty() + line + after);
    text_holds_inside(Seq::<char>::empty(), line, after);
    text_holds_behind("/app\nEnvironmentFile=-/etc/default/"@ + c.package_name, r7, line);
    text_holds_behind("/"@ + c.package_name, r6, line);
    text_holds_behind("\nWorkingDirectory="@ + c.install_dir, r5, line);
    text_holds_behind("\nGroup="@ + c.group, r4, line);
    text_holds_behind("\nAfter=network-online.target\nWants=network-online.target\n\n[Service]\nType=simple\nUser="@ + c.user, r3, line);
    text_holds_behind("\n[Unit]\nDescription="@ + synopsis_of(c.description), r2, line);
    text_holds_behind("# Generated by nativepkg "@ + generator_version, r1, line);
}

proof fn unit_says_logs(c: ResolvedConfigView, generator_version: Seq<char>)
    ensures
        text_holds(
            unit_text(c, generator_version),
            "\nReadWritePaths=/var/log/"@ + c.package_name + "\n"@,
        ),
{
    let r11 = "\n\n[Install]\nWantedBy=multi-user.target\n"@;
    let r10 = " $DAEMON_ARGS\nRestart=always\nRestartSec=5\nNoNewPrivileges=yes\nPrivateTmp=yes\nProtectHome=yes\nProtectSystem=strict\nReadWritePaths=/var/log/"@ + c.package_name + r11;
    let r9 = "/app/"@ + or_empty(c.daemon_entrypoint) + r10;
    let r8 = "/"@ + c.package_name + r9;
    let r7 = "\nExecStart="@ + c.install_dir + r8;
    let r6 = "/app\nEnvironmentFile=-/etc/default/"@ + c.package_name + r7;
    let r5 = "/"@ + c.package_name + r6;
    let r4 = "\nWorkingDirectory="@ + c.install_dir + r5;
    let r3 = "\nGroup="@ + c.group + r4;
    let r2 = "\nAfter=network-online.target\nWants=network-online.target\n\n[Service]\nType=simple\nUser="@ + c.user + r3;
    let r1 = "\n[Unit]\nDescription="@ + synopsis_of(c.description) + r2;
    let r0 = "# Generated by nativepkg "@ + generator_version + r1;
    let line = "\nReadWritePaths=/var/log/"@ + c.package_name + "\n"@;
    assert(" $DAEMON_ARGS\nRestart=always\nRestartSec=5\nNoNewPrivileges=yes\nPrivateTmp=yes\nProtectHome=yes\nProtectSystem=strict\nReadWritePaths=/var/log/"@ =~= " $DAEMON_ARGS\nRestart=always\nRestartSec=5\nNoNewPrivileges=yes\nPrivateTmp=yes\nProtectHome=yes\nProtectSystem=strict"@ + "\nReadWritePaths=/var/log/"@) by {
        reveal_strlit(" $DAEMON_ARGS\nRestart=always\nRestartSec=5\nNoNewPrivileges=yes\nPrivateTmp=yes\nProtectHome=yes\nProtectSystem=strict\nReadWritePaths=/var/log/");
        reveal_strlit(" $DAEMON_ARGS\nRestart=always\nRestartSec=5\nNoNewPrivileges=yes\nPrivateTmp=yes\nProtectHome=yes\nProtectSystem=strict");
        reveal_strlit("\nReadWritePaths=/var/log/");
    }
    assert("\n\n[Install]\nWantedBy=multi-user.target\n"@ =~= "\n"@ + "\n[Install]\nWantedBy=multi-user.target\n"@) by {
        reveal_strlit("\n\n[Install]\nWantedBy=multi-user.target\n");
        reveal_strlit("\n");
        reveal_strlit("\n[Install]\nWantedBy=multi-user.target\n");
    }
    let after = "\n[Install]\nWantedBy=multi-user.target\n"@;
    assert(r10 =~= " $DAEMON_ARGS\nRestart=always\nRestartSec=5\nNoNewPrivileges=yes\nPrivateTmp=yes\nProtectHome=yes\nProtectSystem=strict"@ + line + after);
    text_holds_inside(" $DAEMON_ARGS\nRestart=always\nRestartSec=5\nNoNewPrivileges=yes\nPrivateTmp=yes\nProtectHome=yes\nProtectSystem=strict"@, line, after);
    text_holds_behind("/app/"@ + or_empty(c.daemon_entrypoint), r10, line);
    text_holds_behind("/"@ + c.package_name, r9, line);
    text_holds_behind("\nExecStart="@ + c.install_dir, r8, line);
    text_holds_behind("/app\nEnvironmentFile=-/etc/default/"@ + c.package_name, r7, line);
    text_holds_behind("/"@ + c.package_name, r6, line);
    text_holds_behind("\nWorkingDirectory="@ + c.install_dir, r5, line);
    text_holds_behind("\nGroup="@ + c.group, r4, line);
    text_holds_behind("\nAfter=network-online.target\nWants=network-online.target\n\n[Service]\nType=simple\nUser="@ + c.user, r3, line);
    text_holds_behind("\n[Unit]\nDescription="@ + synopsis_of(c.description), r2, line);
    text_holds_behind("# Generated by nativepkg "@ + generator_version, r1, line);
}

/// The unit runs the daemon of the package, as the user and the group it is configured for, in the
/// application's directory, with the package's defaults, and lets it write its own logs.
pub proof fn the_unit_runs_the_daemon(
    name: Seq<char>,
    c: ResolvedConfigView,
    generator_version: Seq<char>,
    version: Seq<char>,
    architecture: Seq<char>,
)
    ensures
        rendered(
            name,
            SYSTEMD_SERVICE@,
            config_variables(c, generator_version, version, architecture),
        ) matches Ok(text) && {
            &&& text_holds(text, "\nDescription="@ + synopsis_of(c.description) + "\n"@)
            &&& text_holds(text, "\nUser="@ + c.user + "\n"@)
            &&& text_holds(text, "\nGroup="@ + c.group + "\n"@)
            &&& text_holds(text, "\nWorkingDirectory="@ + c.install_dir + "/"@ + c.package_name + "/app\n"@)
            &&& text_holds(text, "\nEnvironmentFile=-/etc/default/"@ + c.package_name + "\n"@)
            &&& text_holds(text, "\nExecStart="@ + c.install_dir + "/"@ + c.package_name + "/app/"@ + or_empty(c.daemon_entrypoint) + " "@)
            &&& text_holds(text, "\nReadWritePaths=/var/log/"@ + c.package_name + "\n"@)
        },
{
    unit_is_rendered(name, c, generator_version, version, architecture);
    unit_says_description(c, generator_version);
    unit_says_user(c, generator_version);
    unit_says_group(c, generator_version);
    unit_says_directory(c, generator_version);
    unit_says_defaults(c, generator_version);
    unit_says_command(c, generator_version);
    unit_says_logs(c, generator_version);
}

// ---- the log_directory ---------------------------------------------------------------------

spec fn log_directory_layout() -> Seq<char> {
    let t4 = " -\n"@;
    let t3 = " "@ + placeholder("group"@) + t4;
    let t2 = " 0755 "@ + placeholder("user"@) + t3;
    let t1 = "\nd /var/log/"@ + placeholder("package_name"@) + t2;
    let t0 = "# Generated by nativepkg "@ + placeholder("generator_version"@) + t1;
    t0
}

spec fn log_directory_text(c: ResolvedConfigView, generator_version: Seq<char>) -> Seq<char> {
    let r4 = " -\n"@;
    let r3 = " "@ + c.group + r4;
    let r2 = " 0755 "@ + c.user + r3;
    let r1 = "\nd /var/log/"@ + c.package_name + r2;
    let r0 = "# Generated by nativepkg "@ + generator_version + r1;
    r0
}

proof fn log_directory_is_laid_out()
    ensures
        TMPFILES_CONF@ == log_directory_layout(),
{
    reveal_strlit(
        "# Generated by nativepkg {{ generator_version }}
d /var/log/{{ package_name }} 0755 {{ user }} {{ group }} -
",
    );
    reveal_strlit("# Generated by nativepkg ");
    reveal_strlit("\nd /var/log/");
    reveal_strlit(" 0755 ");
    reveal_strlit(" ");
    reveal_strlit(" -\n");
    reveal_strlit("generator_version");
    reveal_strlit("package_name");
    reveal_strlit("user");
    reveal_strlit("group");
    reveal_strlit("{{ ");
    reveal_strlit(" }}");
    assert(TMPFILES_CONF@ =~= log_directory_layout());
}

proof fn log_directory_piece_0_is_unbraced()
    ensures
        unbraced("# Generated by nativepkg "@),
{
    reveal_strlit("# Generated by nativepkg ");
    reveal(unbraced);
}

proof fn log_directory_piece_1_is_unbraced()
    ensures
        unbraced("\nd /var/log/"@),
{
    reveal_strlit("\nd /var/log/");
    reveal(unbraced);
}

proof fn log_directory_piece_2_is_unbraced()
    ensures
        unbraced(" 0755 "@),
{
    reveal_strlit(" 0755 ");
    reveal(unbraced);
}

proof fn log_directory_piece_3_is_unbraced()
    ensures
        unbraced(" "@),
{
    reveal_strlit(" ");
    reveal(unbraced);
}

proof fn log_directory_ends_without_a_placeholder()
    ensures
        unopened(" -\n"@),
{
    reveal_strlit(" -\n");
    reveal(unopened);
}

proof fn log_directory_is_rendered(
    name: Seq<char>,
    c: ResolvedConfigView,
    generator_version: Seq<char>,
    version: Seq<char>,
    architecture: Seq<char>,
)
    ensures
        rendered(
            name,
            TMPFILES_CONF@,
            config_variables(c, generator_version, version, architecture),
        ) == Ok::<Seq<char>, ErrorView>(log_directory_text(c, generator_version)),
{
    let values = config_variables(c, generator_version, version, architecture);
    vocabulary_is_named(c, generator_version, version, architecture);
    log_directory_is_laid_out();
    log_directory_piece_0_is_unbraced();
    log_directory_piece_1_is_unbraced();
    log_directory_piece_2_is_unbraced();
    log_directory_piece_3_is_unbraced();
    log_directory_ends_without_a_placeholder();
    let t4 = " -\n"@;
    let t3 = " "@ + placeholder("group"@) + t4;
    let t2 = " 0755 "@ + placeholder("user"@) + t3;
    let t1 = "\nd /var/log/"@ + placeholder("package_name"@) + t2;
    let t0 = "# Generated by nativepkg "@ + placeholder("generator_version"@) + t1;
    let r4 = " -\n"@;
    let r3 = " "@ + c.group + r4;
    let r2 = " 0755 "@ + c.user + r3;
    let r1 = "\nd /var/log/"@ + c.package_name + r2;
    let r0 = "# Generated by nativepkg "@ + generator_version + r1;
    unopened_text_is_unchanged(name, t4, values);
    filled_in(name, " "@, "group"@, c.group, t4, r4, values);
    filled_in(name, " 0755 "@, "user"@, c.user, t3, r3, values);
    filled_in(name, "\nd /var/log/"@, "package_name"@, c.package_name, t2, r2, values);
    filled_in(name, "# Generated by nativepkg "@, "generator_version"@, generator_version, t1, r1, values);
}

proof fn log_directory_says_owner(c: ResolvedConfigView, generator_version: Seq<char>)
    ensures
        text_holds(
            log_directory_text(c, generator_version),
            "\nd /var/log/"@ + c.package_name + " 0755 "@ + c.user + " "@ + c.group + " -\n"@,
        ),
{
    let r4 = " -\n"@;
    let r3 = " "@ + c.group + r4;
    let r2 = " 0755 "@ + c.user + r3;
    let r1 = "\nd /var/log/"@ + c.package_name + r2;
    let r0 = "# Generated by nativepkg "@ + generator_version + r1;
    let line = "\nd /var/log/"@ + c.package_name + " 0755 "@ + c.user + " "@ + c.group + " -\n"@;
    let after = Seq::<char>::empty();
    assert(r1 =~= Seq::<char>::empty() + line + after);
    text_holds_inside(Seq::<char>::empty(), line, after);
    text_holds_behind("# Generated by nativepkg "@ + generator_version, r1, line);
}

/// The log directory a package declares is its own, and belongs to the user and the group its
/// service runs as.
pub proof fn the_log_directory_belongs_to_the_service(
    name: Seq<char>,
    c: ResolvedConfigView,
    generator_version: Seq<char>,
    version: Seq<char>,
    architecture: Seq<char>,
)
    ensures
        rendered(
            name,
            TMPFILES_CONF@,
            config_variables(c, generator_version, version, architecture),
        ) matches Ok(text) && {
            &&& text_holds(text, "\nd /var/log/"@ + c.package_name + " 0755 "@ + c.user + " "@ + c.group + " -\n"@)
        },
{
    log_directory_is_rendered(name, c, generator_version, version, architecture);
    log_directory_says_owner(c, generator_version);
}

// ---- the wrapper ---------------------------------------------------------------------------

spec fn wrapper_layout() -> Seq<char> {
    let t4 = " \"$@\"\n"@;
    let t3 = "/app/"@ + placeholder("cli_entrypoint"@) + t4;
    let t2 = "/"@ + placeholder("package_name"@) + t3;
    let t1 = "\nexec "@ + placeholder("install_dir"@) + t2;
    let t0 = "#!/bin/sh\n# Generated by nativepkg "@ + placeholder("generator_version"@) + t1;
    t0
}

spec fn wrapper_text(c: ResolvedConfigView, generator_version: Seq<char>) -> Seq<char> {
    let r4 = " \"$@\"\n"@;
    let r3 = "/app/"@ + or_empty(c.cli_entrypoint) + r4;
    let r2 = "/"@ + c.package_name + r3;
    let r1 = "\nexec "@ + c.install_dir + r2;
    let r0 = "#!/bin/sh\n# Generated by nativepkg "@ + generator_version + r1;
    r0
}

proof fn wrapper_is_laid_out()
    ensures
        EXECUTABLE@ == wrapper_layout(),
{
    reveal_strlit(
        "#!/bin/sh
# Generated by nativepkg {{ generator_version }}
exec {{ install_dir }}/{{ package_name }}/app/{{ cli_entrypoint }} \"$@\"
",
    );
    reveal_strlit("#!/bin/sh\n# Generated by nativepkg ");
    reveal_strlit("\nexec ");
    reveal_strlit("/");
    reveal_strlit("/app/");
    reveal_strlit(" \"$@\"\n");
    reveal_strlit("generator_version");
    reveal_strlit("install_dir");
    reveal_strlit("package_name");
    reveal_strlit("cli_entrypoint");
    reveal_strlit("{{ ");
    reveal_strlit(" }}");
    assert(EXECUTABLE@ =~= wrapper_layout());
}

proof fn wrapper_piece_0_is_unbraced()
    ensures
        unbraced("#!/bin/sh\n# Generated by nativepkg "@),
{
    reveal_strlit("#!/bin/sh\n# Generated by nativepkg ");
    reveal(unbraced);
}

proof fn wrapper_piece_1_is_unbraced()
    ensures
        unbraced("\nexec "@),
{
    reveal_strlit("\nexec ");
    reveal(unbraced);
}

proof fn wrapper_piece_2_is_unbraced()
    ensures
        unbraced("/"@),
{
    reveal_strlit("/");
    reveal(unbraced);
}

proof fn wrapper_piece_3_is_unbraced()
    ensures
        unbraced("/app/"@),
{
    reveal_strlit("/app/");
    reveal(unbraced);
}

proof fn wrapper_ends_without_a_placeholder()
    ensures
        unopened(" \"$@\"\n"@),
{
    reveal_strlit(" \"$@\"\n");
    reveal(unopened);
}

proof fn wrapper_is_rendered(
    name: Seq<char>,
    c: ResolvedConfigView,
    generator_version: Seq<char>,
    version: Seq<char>,
    architecture: Seq<char>,
)
    ensures
        rendered(
            name,
            EXECUTABLE@,
            config_variables(c, generator_version, version, architecture),
        ) == Ok::<Seq<char>, ErrorView>(wrapper_text(c, generator_version)),
{
    let values = config_variables(c, generator_version, version, architecture);
    vocabulary_is_named(c, generator_version, version, architecture);
    wrapper_is_laid_out();
    wrapper_piece_0_is_unbraced();
    wrapper_piece_1_is_unbraced();
    wrapper_piece_2_is_unbraced();
    wrapper_piece_3_is_unbraced();
    wrapper_ends_without_a_placeholder();
    let t4 = " \"$@\"\n"@;
    let t3 = "/app/"@ + placeholder("cli_entrypoint"@) + t4;
    let t2 = "/"@ + placeholder("package_name"@) + t3;
    let t1 = "\nexec "@ + placeholder("install_dir"@) + t2;
    let t0 = "#!/bin/sh\n# Generated by nativepkg "@ + placeholder("generator_version"@) + t1;
    let r4 = " \"$@\"\n"@;
    let r3 = "/app/"@ + or_empty(c.cli_entrypoint) + r4;
    let r2 = "/"@ + c.package_name + r3;
    let r1 = "\nexec "@ + c.install_dir + r2;
    let r0 = "#!/bin/sh\n# Generated by nativepkg "@ + generator_version + r1;
    unopened_text_is_unchanged(name, t4, values);
    filled_in(name, "/app/"@, "cli_entrypoint"@, or_empty(c.cli_entrypoint), t4, r4, values);
    filled_in(name, "/"@, "package_name"@, c.package_name, t3, r3, values);
    filled_in(name, "\nexec "@, "install_dir"@, c.install_dir, t2, r2, values);
    filled_in(name, "#!/bin/sh\n# Generated by nativepkg "@, "generator_version"@, generator_version, t1, r1, values);
}

proof fn wrapper_says_command(c: ResolvedConfigView, generator_version: Seq<char>)
    ensures
        text_holds(
            wrapper_text(c, generator_version),
            "\nexec "@ + c.install_dir + "/"@ + c.package_name + "/app/"@ + or_empty(c.cli_entrypoint) + " \"$@\"\n"@,
        ),
{
    let r4 = " \"$@\"\n"@;
    let r3 = "/app/"@ + or_empty(c.cli_entrypoint) + r4;
    let r2 = "/"@ + c.package_name + r3;
    let r1 = "\nexec "@ + c.install_dir + r2;
    let r0 = "#!/bin/sh\n# Generated by nativepkg "@ + generator_version + r1;
    let line = "\nexec "@ + c.install_dir + "/"@ + c.package_name + "/app/"@ + or_empty(c.cli_entrypoint) + " \"$@\"\n"@;
    let after = Seq::<char>::empty();
    assert(r1 =~= Seq::<char>::empty() + line + after);
    text_holds_inside(Seq::<char>::empty(), line, after);
    text_holds_behind("#!/bin/sh\n# Generated by nativepkg "@ + generator_version, r1, line);
}

/// The wrapper runs the command's entry point in the application's directory, and hands on what
/// it was given.
pub proof fn the_wrapper_runs_the_command(
    name: Seq<char>,
    c: ResolvedConfigView,
    generator_version: Seq<char>,
    version: Seq<char>,
    architecture: Seq<char>,
)
    ensures
        rendered(
            name,
            EXECUTABLE@,
            config_variables(c, generator_version, version, architecture),
        ) matches Ok(text) && {
            &&& text_holds(text, "\nexec "@ + c.install_dir + "/"@ + c.package_name + "/app/"@ + or_empty(c.cli_entrypoint) + " \"$@\"\n"@)
        },
{
    wrapper_is_rendered(name, c, generator_version, version, architecture);
    wrapper_says_command(c, generator_version);
}

// ---- the job -------------------------------------------------------------------------------

spec fn job_layout() -> Seq<char> {
    let t12 = " $DAEMON_ARGS\nend script\n"@;
    let t11 = "/app/"@ + placeholder("daemon_entrypoint"@) + t12;
    let t10 = "/"@ + placeholder("package_name"@) + t11;
    let t9 = "\n\texec "@ + placeholder("install_dir"@) + t10;
    let t8 = " ] && . /etc/default/"@ + placeholder("package_name"@) + t9;
    let t7 = "/app\n\nscript\n\tDAEMON_ARGS=\"\"\n\t[ -r /etc/default/"@ + placeholder("package_name"@) + t8;
    let t6 = "/"@ + placeholder("package_name"@) + t7;
    let t5 = "\nchdir "@ + placeholder("install_dir"@) + t6;
    let t4 = "\nsetgid "@ + placeholder("group"@) + t5;
    let t3 = "\"\n\nstart on (local-filesystems and net-device-up IFACE!=lo)\nstop on runlevel [016]\n\nrespawn\nrespawn limit 10 5\n\nsetuid "@ + placeholder("user"@) + t4;
    let t2 = "\"\nauthor \""@ + placeholder("package_maintainer_shell"@) + t3;
    let t1 = "\ndescription \""@ + placeholder("package_description_shell"@) + t2;
    let t0 = "# Generated by nativepkg "@ + placeholder("generator_version"@) + t1;
    t0
}

spec fn job_text(c: ResolvedConfigView, generator_version: Seq<char>) -> Seq<char> {
    let r12 = " $DAEMON_ARGS\nend script\n"@;
    let r11 = "/app/"@ + or_empty(c.daemon_entrypoint) + r12;
    let r10 = "/"@ + c.package_name + r11;
    let r9 = "\n\texec "@ + c.install_dir + r10;
    let r8 = " ] && . /etc/default/"@ + c.package_name + r9;
    let r7 = "/app\n\nscript\n\tDAEMON_ARGS=\"\"\n\t[ -r /etc/default/"@ + c.package_name + r8;
    let r6 = "/"@ + c.package_name + r7;
    let r5 = "\nchdir "@ + c.install_dir + r6;
    let r4 = "\nsetgid "@ + c.group + r5;
    let r3 = "\"\n\nstart on (local-filesystems and net-device-up IFACE!=lo)\nstop on runlevel [016]\n\nrespawn\nrespawn limit 10 5\n\nsetuid "@ + c.user + r4;
    let r2 = "\"\nauthor \""@ + quoted(c.maintainer) + r3;
    let r1 = "\ndescription \""@ + quoted(synopsis_of(c.description)) + r2;
    let r0 = "# Generated by nativepkg "@ + generator_version + r1;
    r0
}

proof fn job_is_laid_out()
    ensures
        UPSTART_CONF@ == job_layout(),
{
    reveal_strlit(
        "# Generated by nativepkg {{ generator_version }}
description \"{{ package_description_shell }}\"
author \"{{ package_maintainer_shell }}\"

start on (local-filesystems and net-device-up IFACE!=lo)
stop on runlevel [016]

respawn
respawn limit 10 5

setuid {{ user }}
setgid {{ group }}
chdir {{ install_dir }}/{{ package_name }}/app

script
\tDAEMON_ARGS=\"\"
\t[ -r /etc/default/{{ package_name }} ] && . /etc/default/{{ package_name }}
\texec {{ install_dir }}/{{ package_name }}/app/{{ daemon_entrypoint }} $DAEMON_ARGS
end script
",
    );
    reveal_strlit("# Generated by nativepkg ");
    reveal_strlit("\ndescription \"");
    reveal_strlit("\"\nauthor \"");
    reveal_strlit("\"\n\nstart on (local-filesystems and net-device-up IFACE!=lo)\nstop on runlevel [016]\n\nrespawn\nrespawn limit 10 5\n\nsetuid ");
    reveal_strlit("\nsetgid ");
    reveal_strlit("\nchdir ");
    reveal_strlit("/");
    reveal_strlit("/app\n\nscript\n\tDAEMON_ARGS=\"\"\n\t[ -r /etc/default/");
    reveal_strlit(" ] && . /etc/default/");
    reveal_strlit("\n\texec ");
    reveal_strlit("/app/");
    reveal_strlit(" $DAEMON_ARGS\nend script\n");
    reveal_strlit("generator_version");
    reveal_strlit("package_description_shell");
    reveal_strlit("package_maintainer_shell");
    reveal_strlit("user");
    reveal_strlit("group");
    reveal_strlit("install_dir");
    reveal_strlit("package_name");
    reveal_strlit("daemon_entrypoint");
    reveal_strlit("{{ ");
    reveal_strlit(" }}");
    assert(UPSTART_CONF@ =~= job_layout());
}

proof fn job_piece_0_is_unbraced()
    ensures
        unbraced("# Generated by nativepkg "@),
{
    reveal_strlit("# Generated by nativepkg ");
    reveal(unbraced);
}

proof fn job_piece_1_is_unbraced()
    ensures
        unbraced("\ndescription \""@),
{
    reveal_strlit("\ndescription \"");
    reveal(unbraced);
}

proof fn job_piece_2_is_unbraced()
    ensures
        unbraced("\"\nauthor \""@),
{
    reveal_strlit("\"\nauthor \"");
    reveal(unbraced);
}

proof fn job_piece_3_is_unbraced()
    ensures
        unbraced("\"\n\nstart on (local-filesystems and net-device-up IFACE!=lo)\nstop on runlevel [016]\n\nrespawn\nrespawn limit 10 5\n\nsetuid "@),
{
    reveal_strlit("\"\n\nstart on (local-filesystems and net-device-up IFACE!=lo)\nstop on runlevel [016]\n\nrespawn\nrespawn limit 10 5\n\nsetuid ");
    reveal(unbraced);
}

proof fn job_piece_4_is_unbraced()
    ensures
        unbraced("\nsetgid "@),
{
    reveal_strlit("\nsetgid ");
    reveal(unbraced);
}

proof fn job_piece_5_is_unbraced()
    ensures
        unbraced("\nchdir "@),
{
    reveal_strlit("\nchdir ");
    reveal(unbraced);
}

proof fn job_piece_6_is_unbraced()
    ensures
        unbraced("/"@),
{
    reveal_strlit("/");
    reveal(unbraced);
}

proof fn job_piece_7_is_unbraced()
    ensures
        unbraced("/app\n\nscript\n\tDAEMON_ARGS=\"\"\n\t[ -r /etc/default/"@),
{
    reveal_strlit("/app\n\nscript\n\tDAEMON_ARGS=\"\"\n\t[ -r /etc/default/");
    reveal(unbraced);
}

proof fn job_piece_8_is_unbraced()
    ensures
        unbraced(" ] && . /etc/default/"@),
{
    reveal_strlit(" ] && . /etc/default/");
    reveal(unbraced);
}

proof fn job_piece_9_is_unbraced()
    ensures
        unbraced("\n\texec "@),
{
    reveal_strlit("\n\texec ");
    reveal(unbraced);
}

proof fn job_piece_10_is_unbraced()
    ensures
        unbraced("/app/"@),
{
    reveal_strlit("/app/");
    reveal(unbraced);
}

proof fn job_ends_without_a_placeholder()
    ensures
        unopened(" $DAEMON_ARGS\nend script\n"@),
{
    reveal_strlit(" $DAEMON_ARGS\nend script\n");
    reveal(unopened);
}

proof fn job_is_rendered(
    name: Seq<char>,
    c: ResolvedConfigView,
    generator_version: Seq<char>,
    version: Seq<char>,
    architecture: Seq<char>,
)
    ensures
        rendered(
            name,
            UPSTART_CONF@,
            config_variables(c, generator_version, version, architecture),
        ) == Ok::<Seq<char>, ErrorView>(job_text(c, generator_version)),
{
    let values = config_variables(c, generator_version, version, architecture);
    vocabulary_is_named(c, generator_version, version, architecture);
    job_is_laid_out();
    job_piece_0_is_unbraced();
    job_piece_1_is_unbraced();
    job_piece_2_is_unbraced();
    job_piece_3_is_unbraced();
    job_piece_4_is_unbraced();
    job_piece_5_is_unbraced();
    job_piece_6_is_unbraced();
    job_piece_7_is_unbraced();
    job_piece_8_is_unbraced();
    job_piece_9_is_unbraced();
    job_piece_10_is_unbraced();
    job_ends_without_a_placeholder();
    let t12 = " $DAEMON_ARGS\nend script\n"@;
    let t11 = "/app/"@ + placeholder("daemon_entrypoint"@) + t12;
    let t10 = "/"@ + placeholder("package_name"@) + t11;
    let t9 = "\n\texec "@ + placeholder("install_dir"@) + t10;
    let t8 = " ] && . /etc/default/"@ + placeholder("package_name"@) + t9;
    let t7 = "/app\n\nscript\n\tDAEMON_ARGS=\"\"\n\t[ -r /etc/default/"@ + placeholder("package_name"@) + t8;
    let t6 = "/"@ + placeholder("package_name"@) + t7;
    let t5 = "\nchdir "@ + placeholder("install_dir"@) + t6;
    let t4 = "\nsetgid "@ + placeholder("group"@) + t5;
    let t3 = "\"\n\nstart on (local-filesystems and net-device-up IFACE!=lo)\nstop on runlevel [016]\n\nrespawn\nrespawn limit 10 5\n\nsetuid "@ + placeholder("user"@) + t4;
    let t2 = "\"\nauthor \""@ + placeholder("package_maintainer_shell"@) + t3;
    let t1 = "\ndescription \""@ + placeholder("package_description_shell"@) + t2;
    let t0 = "# Generated by nativepkg "@ + placeholder("generator_version"@) + t1;
    let r12 = " $DAEMON_ARGS\nend script\n"@;
    let r11 = "/app/"@ + or_empty(c.daemon_entrypoint) + r12;
    let r10 = "/"@ + c.package_name + r11;
    let r9 = "\n\texec "@ + c.install_dir + r10;
    let r8 = " ] && . /etc/default/"@ + c.package_name + r9;
    let r7 = "/app\n\nscript\n\tDAEMON_ARGS=\"\"\n\t[ -r /etc/default/"@ + c.package_name + r8;
    let r6 = "/"@ + c.package_name + r7;
    let r5 = "\nchdir "@ + c.install_dir + r6;
    let r4 = "\nsetgid "@ + c.group + r5;
    let r3 = "\"\n\nstart on (local-filesystems and net-device-up IFACE!=lo)\nstop on runlevel [016]\n\nrespawn\nrespawn limit 10 5\n\nsetuid "@ + c.user + r4;
    let r2 = "\"\nauthor \""@ + quoted(c.maintainer) + r3;
    let r1 = "\ndescription \""@ + quoted(synopsis_of(c.description)) + r2;
    let r0 = "# Generated by nativepkg "@ + generator_version + r1;
    unopened_text_is_unchanged(name, t12, values);
    filled_in(name, "/app/"@, "daemon_entrypoint"@, or_empty(c.daemon_entrypoint), t12, r12, values);
    filled_in(name, "/"@, "package_name"@, c.package_name, t11, r11, values);
    filled_in(name, "\n\texec "@, "install_dir"@, c.install_dir, t10, r10, values);
    filled_in(name, " ] && . /etc/default/"@, "package_name"@, c.package_name, t9, r9, values);
    filled_in(name, "/app\n\nscript\n\tDAEMON_ARGS=\"\"\n\t[ -r /etc/default/"@, "package_name"@, c.package_name, t8, r8, values);
    filled_in(name, "/"@, "package_name"@, c.package_name, t7, r7, values);
    filled_in(name, "\nchdir "@, "install_dir"@, c.install_dir, t6, r6, values);
    filled_in(name, "\nsetgid "@, "group"@, c.group, t5, r5, values);
    filled_in(name, "\"\n\nstart on (local-filesystems and net-device-up IFACE!=lo)\nstop on runlevel [016]\n\nrespawn\nrespawn limit 10 5\n\nsetuid "@, "user"@, c.user, t4, r4, values);
    filled_in(name, "\"\nauthor \""@, "package_maintainer_shell"@, quoted(c.maintainer), t3, r3, values);
    filled_in(name, "\ndescription \""@, "package_description_shell"@, quoted(synopsis_of(c.description)), t2, r2, values);
    filled_in(name, "# Generated by nativepkg "@, "generator_version"@, generator_version, t1, r1, values);
}

proof fn job_says_description(c: ResolvedConfigView, generator_version: Seq<char>)
    ensures
        text_holds(
            job_text(c, generator_version),
            "\ndescription \""@ + quoted(synopsis_of(c.description)) + "\"\n"@,
        ),
{
    let r12 = " $DAEMON_ARGS\nend script\n"@;
    let r11 = "/app/"@ + or_empty(c.daemon_entrypoint) + r12;
    let r10 = "/"@ + c.package_name + r11;
    let r9 = "\n\texec "@ + c.install_dir + r10;
    let r8 = " ] && . /etc/default/"@ + c.package_name + r9;
    let r7 = "/app\n\nscript\n\tDAEMON_ARGS=\"\"\n\t[ -r /etc/default/"@ + c.package_name + r8;
    let r6 = "/"@ + c.package_name + r7;
    let r5 = "\nchdir "@ + c.install_dir + r6;
    let r4 = "\nsetgid "@ + c.group + r5;
    let r3 = "\"\n\nstart on (local-filesystems and net-device-up IFACE!=lo)\nstop on runlevel [016]\n\nrespawn\nrespawn limit 10 5\n\nsetuid "@ + c.user + r4;
    let r2 = "\"\nauthor \""@ + quoted(c.maintainer) + r3;
    let r1 = "\ndescription \""@ + quoted(synopsis_of(c.description)) + r2;
    let r0 = "# Generated by nativepkg "@ + generator_version + r1;
    let line = "\ndescription \""@ + quoted(synopsis_of(c.description)) + "\"\n"@;
    assert("\"\nauthor \""@ =~= "\"\n"@ + "author \""@) by {
        reveal_strlit("\"\nauthor \"");
        reveal_strlit("\"\n");
        reveal_strlit("author \"");
    }
    let after = "author \""@ + quoted(c.maintainer) + r3;
    assert(r1 =~= Seq::<char>::empty() + line + after);
    text_holds_inside(Seq::<char>::empty(), line, after);
    text_holds_behind("# Generated by nativepkg "@ + generator_version, r1, line);
}

proof fn job_says_author(c: ResolvedConfigView, generator_version: Seq<char>)
    ensures
        text_holds(
            job_text(c, generator_version),
            "\nauthor \""@ + quoted(c.maintainer) + "\"\n"@,
        ),
{
    let r12 = " $DAEMON_ARGS\nend script\n"@;
    let r11 = "/app/"@ + or_empty(c.daemon_entrypoint) + r12;
    let r10 = "/"@ + c.package_name + r11;
    let r9 = "\n\texec "@ + c.install_dir + r10;
    let r8 = " ] && . /etc/default/"@ + c.package_name + r9;
    let r7 = "/app\n\nscript\n\tDAEMON_ARGS=\"\"\n\t[ -r /etc/default/"@ + c.package_name + r8;
    let r6 = "/"@ + c.package_name + r7;
    let r5 = "\nchdir "@ + c.install_dir + r6;
    let r4 = "\nsetgid "@ + c.group + r5;
    let r3 = "\"\n\nstart on (local-filesystems and net-device-up IFACE!=lo)\nstop on runlevel [016]\n\nrespawn\nrespawn limit 10 5\n\nsetuid "@ + c.user + r4;
    let r2 = "\"\nauthor \""@ + quoted(c.maintainer) + r3;
    let r1 = "\ndescription \""@ + quoted(synopsis_of(c.description)) + r2;
    let r0 = "# Generated by nativepkg "@ + generator_version + r1;
    let line = "\nauthor \""@ + quoted(c.maintainer) + "\"\n"@;
    assert("\"\nauthor \""@ =~= "\""@ + "\nauthor \""@) by {
        reveal_strlit("\"\nauthor \"");
        reveal_strlit("\"");
        reveal_strlit("\nauthor \"");
    }
    assert("\"\n\nstart on (local-filesystems and net-device-up IFACE!=lo)\nstop on runlevel [016]\n\nrespawn\nrespawn limit 10 5\n\nsetuid "@ =~= "\"\n"@ + "\nstart on (local-filesystems and net-device-up IFACE!=lo)\nstop on runlevel [016]\n\nrespawn\nrespawn limit 10 5\n\nsetuid "@) by {
        reveal_strlit("\"\n\nstart on (local-filesystems and net-device-up IFACE!=lo)\nstop on runlevel [016]\n\nrespawn\nrespawn limit 10 5\n\nsetuid ");
        reveal_strlit("\"\n");
        reveal_strlit("\nstart on (local-filesystems and net-device-up IFACE!=lo)\nstop on runlevel [016]\n\nrespawn\nrespawn limit 10 5\n\nsetuid ");
    }
    let after = "\nstart on (local-filesystems and net-device-up IFACE!=lo)\nstop on runlevel [016]\n\nrespawn\nrespawn limit 10 5\n\nsetuid "@ + c.user + r4;
    assert(r2 =~= "\""@ + line + after);
    text_holds_inside("\""@, line, after);
    text_holds_behind("\ndescription \""@ + quoted(synopsis_of(c.description)), r2, line);
    text_holds_behind("# Generated by nativepkg "@ + generator_version, r1, line);
}

proof fn job_says_user(c: ResolvedConfigView, generator_version: Seq<char>)
    ensures
        text_holds(
            job_text(c, generator_version),
            "\nsetuid "@ + c.user + "\n"@,
        ),
{
    let r12 = " $DAEMON_ARGS\nend script\n"@;
    let r11 = "/app/"@ + or_empty(c.daemon_entrypoint) + r12;
    let r10 = "/"@ + c.package_name + r11;
    let r9 = "\n\texec "@ + c.install_dir + r10;
    let r8 = " ] && . /etc/default/"@ + c.package_name + r9;
    let r7 = "/app\n\nscript\n\tDAEMON_ARGS=\"\"\n\t[ -r /etc/default/"@ + c.package_name + r8;
    let r6 = "/"@ + c.package_name + r7;
    let r5 = "\nchdir "@ + c.install_dir + r6;
    let r4 = "\nsetgid "@ + c.group + r5;
    let r3 = "\"\n\nstart on (local-filesystems and net-device-up IFACE!=lo)\nstop on runlevel [016]\n\nrespawn\nrespawn limit 10 5\n\nsetuid "@ + c.user + r4;
    let r2 = "\"\nauthor \""@ + quoted(c.maintainer) + r3;
    let r1 = "\ndescription \""@ + quoted(synopsis_of(c.description)) + r2;
    let r0 = "# Generated by nativepkg "@ + generator_version + r1;
    let line = "\nsetuid "@ + c.user + "\n"@;
    assert("\"\n\nstart on (local-filesystems and net-device-up IFACE!=lo)\nstop on runlevel [016]\n\nrespawn\nrespawn limit 10 5\n\nsetuid "@ =~= "\"\n\nstart on (local-filesystems and net-device-up IFACE!=lo)\nstop on runlevel [016]\n\nrespawn\nrespawn limit 10 5\n"@ + "\nsetuid "@) by {
        reveal_strlit("\"\n\nstart on (local-filesystems and net-device-up IFACE!=lo)\nstop on runlevel [016]\n\nrespawn\nrespawn limit 10 5\n\nsetuid ");
        reveal_strlit("\"\n\nstart on (local-filesystems and net-device-up IFACE!=lo)\nstop on runlevel [016]\n\nrespawn\nrespawn limit 10 5\n");
        reveal_strlit("\nsetuid ");
    }
    assert("\nsetgid "@ =~= "\n"@ + "setgid "@) by {
        reveal_strlit("\nsetgid ");
        reveal_strlit("\n");
        reveal_strlit("setgid ");
    }
    let after = "setgid "@ + c.group + r5;
    assert(r3 =~= "\"\n\nstart on (local-filesystems and net-device-up IFACE!=lo)\nstop on runlevel [016]\n\nrespawn\nrespawn limit 10 5\n"@ + line + after);
    text_holds_inside("\"\n\nstart on (local-filesystems and net-device-up IFACE!=lo)\nstop on runlevel [016]\n\nrespawn\nrespawn limit 10 5\n"@, line, after);
    text_holds_behind("\"\nauthor \""@ + quoted(c.maintainer), r3, line);
    text_holds_behind("\ndescription \""@ + quoted(synopsis_of(c.description)), r2, line);
    text_holds_behind("# Generated by nativepkg "@ + generator_version, r1, line);
}

proof fn job_says_group(c: ResolvedConfigView, generator_version: Seq<char>)
    ensures
        text_holds(
            job_text(c, generator_version),
            "\nsetgid "@ + c.group + "\n"@,
        ),
{
    let r12 = " $DAEMON_ARGS\nend script\n"@;
    let r11 = "/app/"@ + or_empty(c.daemon_entrypoint) + r12;
    let r10 = "/"@ + c.package_name + r11;
    let r9 = "\n\texec "@ + c.install_dir + r10;
    let r8 = " ] && . /etc/default/"@ + c.package_name + r9;
    let r7 = "/app\n\nscript\n\tDAEMON_ARGS=\"\"\n\t[ -r /etc/default/"@ + c.package_name + r8;
    let r6 = "/"@ + c.package_name + r7;
    let r5 = "\nchdir "@ + c.install_dir + r6;
    let r4 = "\nsetgid "@ + c.group + r5;
    let r3 = "\"\n\nstart on (local-filesystems and net-device-up IFACE!=lo)\nstop on runlevel [016]\n\nrespawn\nrespawn limit 10 5\n\nsetuid "@ + c.user + r4;
    let r2 = "\"\nauthor \""@ + quoted(c.maintainer) + r3;
    let r1 = "\ndescription \""@ + quoted(synopsis_of(c.description)) + r2;
    let r0 = "# Generated by nativepkg "@ + generator_version + r1;
    let line = "\nsetgid "@ + c.group + "\n"@;
    assert("\nchdir "@ =~= "\n"@ + "chdir "@) by {
        reveal_strlit("\nchdir ");
        reveal_strlit("\n");
        reveal_strlit("chdir ");
    }
    let after = "chdir "@ + c.install_dir + r6;
    assert(r4 =~= Seq::<char>::empty() + line + after);
    text_holds_inside(Seq::<char>::empty(), line, after);
    text_holds_behind("\"\n\nstart on (local-filesystems and net-device-up IFACE!=lo)\nstop on runlevel [016]\n\nrespawn\nrespawn limit 10 5\n\nsetuid "@ + c.user, r4, line);
    text_holds_behind("\"\nauthor \""@ + quoted(c.maintainer), r3, line);
    text_holds_behind("\ndescription \""@ + quoted(synopsis_of(c.description)), r2, line);
    text_holds_behind("# Generated by nativepkg "@ + generator_version, r1, line);
}

proof fn job_says_directory(c: ResolvedConfigView, generator_version: Seq<char>)
    ensures
        text_holds(
            job_text(c, generator_version),
            "\nchdir "@ + c.install_dir + "/"@ + c.package_name + "/app\n"@,
        ),
{
    let r12 = " $DAEMON_ARGS\nend script\n"@;
    let r11 = "/app/"@ + or_empty(c.daemon_entrypoint) + r12;
    let r10 = "/"@ + c.package_name + r11;
    let r9 = "\n\texec "@ + c.install_dir + r10;
    let r8 = " ] && . /etc/default/"@ + c.package_name + r9;
    let r7 = "/app\n\nscript\n\tDAEMON_ARGS=\"\"\n\t[ -r /etc/default/"@ + c.package_name + r8;
    let r6 = "/"@ + c.package_name + r7;
    let r5 = "\nchdir "@ + c.install_dir + r6;
    let r4 = "\nsetgid "@ + c.group + r5;
    let r3 = "\"\n\nstart on (local-filesystems and net-device-up IFACE!=lo)\nstop on runlevel [016]\n\nrespawn\nrespawn limit 10 5\n\nsetuid "@ + c.user + r4;
    let r2 = "\"\nauthor \""@ + quoted(c.maintainer) + r3;
    let r1 = "\ndescription \""@ + quoted(synopsis_of(c.description)) + r2;
    let r0 = "# Generated by nativepkg "@ + generator_version + r1;
    let line = "\nchdir "@ + c.install_dir + "/"@ + c.package_name + "/app\n"@;
    assert("/app\n\nscript\n\tDAEMON_ARGS=\"\"\n\t[ -r /etc/default/"@ =~= "/app\n"@ + "\nscript\n\tDAEMON_ARGS=\"\"\n\t[ -r /etc/default/"@) by {
        reveal_strlit("/app\n\nscript\n\tDAEMON_ARGS=\"\"\n\t[ -r /etc/default/");
        reveal_strlit("/app\n");
        reveal_strlit("\nscript\n\tDAEMON_ARGS=\"\"\n\t[ -r /etc/default/");
    }
    let after = "\nscript\n\tDAEMON_ARGS=\"\"\n\t[ -r /etc/default/"@ + c.package_name + r8;
    assert(r5 =~= Seq::<char>::empty() + line + after);
    text_holds_inside(Seq::<char>::empty(), line, after);
    text_holds_behind("\nsetgid "@ + c.group, r5, line);
    text_holds_behind("\"\n\nstart on (local-filesystems and net-device-up IFACE!=lo)\nstop on runlevel [016]\n\nrespawn\nrespawn limit 10 5\n\nsetuid "@ + c.user, r4, line);
    text_holds_behind("\"\nauthor \""@ + quoted(c.maintainer), r3, line);
    text_holds_behind("\ndescription \""@ + quoted(synopsis_of(c.description)), r2, line);
    text_holds_behind("# Generated by nativepkg "@ + generator_version, r1, line);
}

proof fn job_says_command(c: ResolvedConfigView, generator_version: Seq<char>)
    ensures
        text_holds(
            job_text(c, generator_version),
            "\n\texec "@ + c.install_dir + "/"@ + c.package_name + "/app/"@ + or_empty(c.daemon_entrypoint) + " "@,
        ),
{
    let r12 = " $DAEMON_ARGS\nend script\n"@;
    let r11 = "/app/"@ + or_empty(c.daemon_entrypoint) + r12;
    let r10 = "/"@ + c.package_name + r11;
    let r9 = "\n\texec "@ + c.install_dir + r10;
    let r8 = " ] && . /etc/default/"@ + c.package_name + r9;
    let r7 = "/app\n\nscript\n\tDAEMON_ARGS=\"\"\n\t[ -r /etc/default/"@ + c.package_name + r8;
    let r6 = "/"@ + c.package_name + r7;
    let r5 = "\nchdir "@ + c.install_dir + r6;
    let r4 = "\nsetgid "@ + c.group + r5;
    let r3 = "\"\n\nstart on (local-filesystems and net-device-up IFACE!=lo)\nstop on runlevel [016]\n\nrespawn\nrespawn limit 10 5\n\nsetuid "@ + c.user + r4;
    let r2 = "\"\nauthor \""@ + quoted(c.maintainer) + r3;
    let r1 = "\ndescription \""@ + quoted(synopsis_of(c.description)) + r2;
    let r0 = "# Generated by nativepkg "@ + generator_version + r1;
    let line = "\n\texec "@ + c.install_dir + "/"@ + c.package_name + "/app/"@ + or_empty(c.daemon_entrypoint) + " "@;
    assert(" $DAEMON_ARGS\nend script\n"@ =~= " "@ + "$DAEMON_ARGS\nend script\n"@) by {
        reveal_strlit(" $DAEMON_ARGS\nend script\n");
        reveal_strlit(" ");
        reveal_strlit("$DAEMON_ARGS\nend script\n");
    }
    let after = "$DAEMON_ARGS\nend script\n"@;
    assert(r9 =~= Seq::<char>::empty() + line + after);
    text_holds_inside(Seq::<char>::empty(), line, after);
    text_holds_behind(" ] && . /etc/default/"@ + c.package_name, r9, line);
    text_holds_behind("/app\n\nscript\n\tDAEMON_ARGS=\"\"\n\t[ -r /etc/default/"@ + c.package_name, r8, line);
    text_holds_behind("/"@ + c.package_name, r7, line);
    text_holds_behind("\nchdir "@ + c.install_dir, r6, line);
    text_holds_behind("\nsetgid "@ + c.group, r5, line);
    text_holds_behind("\"\n\nstart on (local-filesystems and net-device-up IFACE!=lo)\nstop on runlevel [016]\n\nrespawn\nrespawn limit 10 5\n\nsetuid "@ + c.user, r4, line);
    text_holds_behind("\"\nauthor \""@ + quoted(c.maintainer), r3, line);
    text_holds_behind("\ndescription \""@ + quoted(synopsis_of(c.description)), r2, line);
    text_holds_behind("# Generated by nativepkg "@ + generator_version, r1, line);
}

/// The job runs the daemon of the package, as the user and the group it is configured for, in the
/// application's directory, and is described and signed.
pub proof fn the_job_runs_the_daemon(
    name: Seq<char>,
    c: ResolvedConfigView,
    generator_version: Seq<char>,
    version: Seq<char>,
    architecture: Seq<char>,
)
    ensures
        rendered(
            name,
            UPSTART_CONF@,
            config_variables(c, generator_version, version, architecture),
        ) matches Ok(text) && {
            &&& text_holds(text, "\ndescription \""@ + quoted(synopsis_of(c.description)) + "\"\n"@)
            &&& text_holds(text, "\nauthor \""@ + quoted(c.maintainer) + "\"\n"@)
            &&& text_holds(text, "\nsetuid "@ + c.user + "\n"@)
            &&& text_holds(text, "\nsetgid "@ + c.group + "\n"@)
            &&& text_holds(text, "\nchdir "@ + c.install_dir + "/"@ + c.package_name + "/app\n"@)
            &&& text_holds(text, "\n\texec "@ + c.install_dir + "/"@ + c.package_name + "/app/"@ + or_empty(c.daemon_entrypoint) + " "@)
        },
{
    job_is_rendered(name, c, generator_version, version, architecture);
    job_says_description(c, generator_version);
    job_says_author(c, generator_version);
    job_says_user(c, generator_version);
    job_says_group(c, generator_version);
    job_says_directory(c, generator_version);
    job_says_command(c, generator_version);
}

// ---- the script ----------------------------------------------------------------------------

spec fn script_layout() -> Seq<char> {
    let t10 = "\"\nPIDFILE=\"/var/run/$NAME.pid\"\nLOGFILE=\"/var/log/$NAME/$NAME.log\"\nDAEMON_ARGS=\"\"\n\n[ -x \"$DAEMON\" ] || exit 0\n[ -r \"/etc/default/$NAME\" ] && . \"/etc/default/$NAME\"\n. /lib/lsb/init-functions\n\nstart_service() {\n\tstart-stop-daemon --start --quiet --background --make-pidfile --pidfile \"$PIDFILE\" \\\n\t\t--chuid \"$RUN_AS\" --chdir \"$APP_DIR\" --startas /bin/sh -- \\\n\t\t-c \"exec $DAEMON $DAEMON_ARGS >> $LOGFILE 2>&1\"\n}\n\nstop_service() {\n\tstart-stop-daemon --stop --quiet --oknodo --retry=TERM/30/KILL/5 --pidfile \"$PIDFILE\"\n\trm -f \"$PIDFILE\"\n}\n\ncase \"$1\" in\n\tstart)\n\t\tlog_daemon_msg \"Starting $DESCRIPTION\" \"$NAME\"\n\t\tstart_service\n\t\tlog_end_msg $?\n\t\t;;\n\tstop)\n\t\tlog_daemon_msg \"Stopping $DESCRIPTION\" \"$NAME\"\n\t\tstop_service\n\t\tlog_end_msg $?\n\t\t;;\n\trestart|force-reload)\n\t\tlog_daemon_msg \"Restarting $DESCRIPTION\" \"$NAME\"\n\t\tstop_service\n\t\tstart_service\n\t\tlog_end_msg $?\n\t\t;;\n\tstatus)\n\t\tstatus_of_proc -p \"$PIDFILE\" \"$DAEMON\" \"$NAME\"\n\t\t;;\n\t*)\n\t\techo \"Usage: /etc/init.d/$NAME {start|stop|restart|force-reload|status}\" >&2\n\t\texit 3\n\t\t;;\nesac\n"@;
    let t9 = "/app\"\nDAEMON=\"$APP_DIR/"@ + placeholder("daemon_entrypoint"@) + t10;
    let t8 = "/"@ + placeholder("package_name"@) + t9;
    let t7 = "\"\nAPP_DIR=\""@ + placeholder("install_dir"@) + t8;
    let t6 = ":"@ + placeholder("group"@) + t7;
    let t5 = "\"\nRUN_AS=\""@ + placeholder("user"@) + t6;
    let t4 = "\"\nDESCRIPTION=\""@ + placeholder("package_description_shell"@) + t5;
    let t3 = "\n### END INIT INFO\n\nNAME=\""@ + placeholder("package_name"@) + t4;
    let t2 = "\n# Required-Start:    $local_fs $network $remote_fs $syslog\n# Required-Stop:     $local_fs $network $remote_fs $syslog\n# Default-Start:     2 3 4 5\n# Default-Stop:      0 1 6\n# Short-Description: "@ + placeholder("package_name"@) + t3;
    let t1 = "\n### BEGIN INIT INFO\n# Provides:          "@ + placeholder("package_name"@) + t2;
    let t0 = "#!/bin/sh\n# Generated by nativepkg "@ + placeholder("generator_version"@) + t1;
    t0
}

spec fn script_text(c: ResolvedConfigView, generator_version: Seq<char>) -> Seq<char> {
    let r10 = "\"\nPIDFILE=\"/var/run/$NAME.pid\"\nLOGFILE=\"/var/log/$NAME/$NAME.log\"\nDAEMON_ARGS=\"\"\n\n[ -x \"$DAEMON\" ] || exit 0\n[ -r \"/etc/default/$NAME\" ] && . \"/etc/default/$NAME\"\n. /lib/lsb/init-functions\n\nstart_service() {\n\tstart-stop-daemon --start --quiet --background --make-pidfile --pidfile \"$PIDFILE\" \\\n\t\t--chuid \"$RUN_AS\" --chdir \"$APP_DIR\" --startas /bin/sh -- \\\n\t\t-c \"exec $DAEMON $DAEMON_ARGS >> $LOGFILE 2>&1\"\n}\n\nstop_service() {\n\tstart-stop-daemon --stop --quiet --oknodo --retry=TERM/30/KILL/5 --pidfile \"$PIDFILE\"\n\trm -f \"$PIDFILE\"\n}\n\ncase \"$1\" in\n\tstart)\n\t\tlog_daemon_msg \"Starting $DESCRIPTION\" \"$NAME\"\n\t\tstart_service\n\t\tlog_end_msg $?\n\t\t;;\n\tstop)\n\t\tlog_daemon_msg \"Stopping $DESCRIPTION\" \"$NAME\"\n\t\tstop_service\n\t\tlog_end_msg $?\n\t\t;;\n\trestart|force-reload)\n\t\tlog_daemon_msg \"Restarting $DESCRIPTION\" \"$NAME\"\n\t\tstop_service\n\t\tstart_service\n\t\tlog_end_msg $?\n\t\t;;\n\tstatus)\n\t\tstatus_of_proc -p \"$PIDFILE\" \"$DAEMON\" \"$NAME\"\n\t\t;;\n\t*)\n\t\techo \"Usage: /etc/init.d/$NAME {start|stop|restart|force-reload|status}\" >&2\n\t\texit 3\n\t\t;;\nesac\n"@;
    let r9 = "/app\"\nDAEMON=\"$APP_DIR/"@ + or_empty(c.daemon_entrypoint) + r10;
    let r8 = "/"@ + c.package_name + r9;
    let r7 = "\"\nAPP_DIR=\""@ + c.install_dir + r8;
    let r6 = ":"@ + c.group + r7;
    let r5 = "\"\nRUN_AS=\""@ + c.user + r6;
    let r4 = "\"\nDESCRIPTION=\""@ + quoted(synopsis_of(c.description)) + r5;
    let r3 = "\n### END INIT INFO\n\nNAME=\""@ + c.package_name + r4;
    let r2 = "\n# Required-Start:    $local_fs $network $remote_fs $syslog\n# Required-Stop:     $local_fs $network $remote_fs $syslog\n# Default-Start:     2 3 4 5\n# Default-Stop:      0 1 6\n# Short-Description: "@ + c.package_name + r3;
    let r1 = "\n### BEGIN INIT INFO\n# Provides:          "@ + c.package_name + r2;
    let r0 = "#!/bin/sh\n# Generated by nativepkg "@ + generator_version + r1;
    r0
}

proof fn script_is_laid_out()
    ensures
        SYSV_INIT@ == script_layout(),
{
    reveal_strlit(
        "#!/bin/sh
# Generated by nativepkg {{ generator_version }}
### BEGIN INIT INFO
# Provides:          {{ package_name }}
# Required-Start:    $local_fs $network $remote_fs $syslog
# Required-Stop:     $local_fs $network $remote_fs $syslog
# Default-Start:     2 3 4 5
# Default-Stop:      0 1 6
# Short-Description: {{ package_name }}
### END INIT INFO

NAME=\"{{ package_name }}\"
DESCRIPTION=\"{{ package_description_shell }}\"
RUN_AS=\"{{ user }}:{{ group }}\"
APP_DIR=\"{{ install_dir }}/{{ package_name }}/app\"
DAEMON=\"$APP_DIR/{{ daemon_entrypoint }}\"
PIDFILE=\"/var/run/$NAME.pid\"
LOGFILE=\"/var/log/$NAME/$NAME.log\"
DAEMON_ARGS=\"\"

[ -x \"$DAEMON\" ] || exit 0
[ -r \"/etc/default/$NAME\" ] && . \"/etc/default/$NAME\"
. /lib/lsb/init-functions

start_service() {
\tstart-stop-daemon --start --quiet --background --make-pidfile --pidfile \"$PIDFILE\" \\
\t\t--chuid \"$RUN_AS\" --chdir \"$APP_DIR\" --startas /bin/sh -- \\
\t\t-c \"exec $DAEMON $DAEMON_ARGS >> $LOGFILE 2>&1\"
}

stop_service() {
\tstart-stop-daemon --stop --quiet --oknodo --retry=TERM/30/KILL/5 --pidfile \"$PIDFILE\"
\trm -f \"$PIDFILE\"
}

case \"$1\" in
\tstart)
\t\tlog_daemon_msg \"Starting $DESCRIPTION\" \"$NAME\"
\t\tstart_service
\t\tlog_end_msg $?
\t\t;;
\tstop)
\t\tlog_daemon_msg \"Stopping $DESCRIPTION\" \"$NAME\"
\t\tstop_service
\t\tlog_end_msg $?
\t\t;;
\trestart|force-reload)
\t\tlog_daemon_msg \"Restarting $DESCRIPTION\" \"$NAME\"
\t\tstop_service
\t\tstart_service
\t\tlog_end_msg $?
\t\t;;
\tstatus)
\t\tstatus_of_proc -p \"$PIDFILE\" \"$DAEMON\" \"$NAME\"
\t\t;;
\t*)
\t\techo \"Usage: /etc/init.d/$NAME {start|stop|restart|force-reload|status}\" >&2
\t\texit 3
\t\t;;
esac
",
    );
    reveal_strlit("#!/bin/sh\n# Generated by nativepkg ");
    reveal_strlit("\n### BEGIN INIT INFO\n# Provides:          ");
    reveal_strlit("\n# Required-Start:    $local_fs $network $remote_fs $syslog\n# Required-Stop:     $local_fs $network $remote_fs $syslog\n# Default-Start:     2 3 4 5\n# Default-Stop:      0 1 6\n# Short-Description: ");
    reveal_strlit("\n### END INIT INFO\n\nNAME=\"");
    reveal_strlit("\"\nDESCRIPTION=\"");
    reveal_strlit("\"\nRUN_AS=\"");
    reveal_strlit(":");
    reveal_strlit("\"\nAPP_DIR=\"");
    reveal_strlit("/");
    reveal_strlit("/app\"\nDAEMON=\"$APP_DIR/");
    reveal_strlit("\"\nPIDFILE=\"/var/run/$NAME.pid\"\nLOGFILE=\"/var/log/$NAME/$NAME.log\"\nDAEMON_ARGS=\"\"\n\n[ -x \"$DAEMON\" ] || exit 0\n[ -r \"/etc/default/$NAME\" ] && . \"/etc/default/$NAME\"\n. /lib/lsb/init-functions\n\nstart_service() {\n\tstart-stop-daemon --start --quiet --background --make-pidfile --pidfile \"$PIDFILE\" \\\n\t\t--chuid \"$RUN_AS\" --chdir \"$APP_DIR\" --startas /bin/sh -- \\\n\t\t-c \"exec $DAEMON $DAEMON_ARGS >> $LOGFILE 2>&1\"\n}\n\nstop_service() {\n\tstart-stop-daemon --stop --quiet --oknodo --retry=TERM/30/KILL/5 --pidfile \"$PIDFILE\"\n\trm -f \"$PIDFILE\"\n}\n\ncase \"$1\" in\n\tstart)\n\t\tlog_daemon_msg \"Starting $DESCRIPTION\" \"$NAME\"\n\t\tstart_service\n\t\tlog_end_msg $?\n\t\t;;\n\tstop)\n\t\tlog_daemon_msg \"Stopping $DESCRIPTION\" \"$NAME\"\n\t\tstop_service\n\t\tlog_end_msg $?\n\t\t;;\n\trestart|force-reload)\n\t\tlog_daemon_msg \"Restarting $DESCRIPTION\" \"$NAME\"\n\t\tstop_service\n\t\tstart_service\n\t\tlog_end_msg $?\n\t\t;;\n\tstatus)\n\t\tstatus_of_proc -p \"$PIDFILE\" \"$DAEMON\" \"$NAME\"\n\t\t;;\n\t*)\n\t\techo \"Usage: /etc/init.d/$NAME {start|stop|restart|force-reload|status}\" >&2\n\t\texit 3\n\t\t;;\nesac\n");
    reveal_strlit("generator_version");
    reveal_strlit("package_name");
    reveal_strlit("package_description_shell");
    reveal_strlit("user");
    reveal_strlit("group");
    reveal_strlit("install_dir");
    reveal_strlit("daemon_entrypoint");
    reveal_strlit("{{ ");
    reveal_strlit(" }}");
    assert(SYSV_INIT@ =~= script_layout());
}

proof fn script_piece_0_is_unbraced()
    ensures
        unbraced("#!/bin/sh\n# Generated by nativepkg "@),
{
    reveal_strlit("#!/bin/sh\n# Generated by nativepkg ");
    reveal(unbraced);
}

proof fn script_piece_1_is_unbraced()
    ensures
        unbraced("\n### BEGIN INIT INFO\n# Provides:          "@),
{
    reveal_strlit("\n### BEGIN INIT INFO\n# Provides:          ");
    reveal(unbraced);
}

proof fn script_piece_2_is_unbraced()
    ensures
        unbraced("\n# Required-Start:    $local_fs $network $remote_fs $syslog\n# Required-Stop:     $local_fs $network $remote_fs $syslog\n# Default-Start:     2 3 4 5\n# Default-Stop:      0 1 6\n# Short-Description: "@),
{
    reveal_strlit("\n# Required-Start:    $local_fs $network $remote_fs $syslog\n# Required-Stop:     $local_fs $network $remote_fs $syslog\n# Default-Start:     2 3 4 5\n# Default-Stop:      0 1 6\n# Short-Description: ");
    reveal(unbraced);
}

proof fn script_piece_3_is_unbraced()
    ensures
        unbraced("\n### END INIT INFO\n\nNAME=\""@),
{
    reveal_strlit("\n### END INIT INFO\n\nNAME=\"");
    reveal(unbraced);
}

proof fn script_piece_4_is_unbraced()
    ensures
        unbraced("\"\nDESCRIPTION=\""@),
{
    reveal_strlit("\"\nDESCRIPTION=\"");
    reveal(unbraced);
}

proof fn script_piece_5_is_unbraced()
    ensures
        unbraced("\"\nRUN_AS=\""@),
{
    reveal_strlit("\"\nRUN_AS=\"");
    reveal(unbraced);
}

proof fn script_piece_6_is_unbraced()
    ensures
        unbraced(":"@),
{
    reveal_strlit(":");
    reveal(unbraced);
}

proof fn script_piece_7_is_unbraced()
    ensures
        unbraced("\"\nAPP_DIR=\""@),
{
    reveal_strlit("\"\nAPP_DIR=\"");
    reveal(unbraced);
}

proof fn script_piece_8_is_unbraced()
    ensures
        unbraced("/"@),
{
    reveal_strlit("/");
    reveal(unbraced);
}

proof fn script_piece_9_is_unbraced()
    ensures
        unbraced("/app\"\nDAEMON=\"$APP_DIR/"@),
{
    reveal_strlit("/app\"\nDAEMON=\"$APP_DIR/");
    reveal(unbraced);
}

proof fn script_ends_without_a_placeholder()
    ensures
        unopened("\"\nPIDFILE=\"/var/run/$NAME.pid\"\nLOGFILE=\"/var/log/$NAME/$NAME.log\"\nDAEMON_ARGS=\"\"\n\n[ -x \"$DAEMON\" ] || exit 0\n[ -r \"/etc/default/$NAME\" ] && . \"/etc/default/$NAME\"\n. /lib/lsb/init-functions\n\nstart_service() {\n\tstart-stop-daemon --start --quiet --background --make-pidfile --pidfile \"$PIDFILE\" \\\n\t\t--chuid \"$RUN_AS\" --chdir \"$APP_DIR\" --startas /bin/sh -- \\\n\t\t-c \"exec $DAEMON $DAEMON_ARGS >> $LOGFILE 2>&1\"\n}\n\nstop_service() {\n\tstart-stop-daemon --stop --quiet --oknodo --retry=TERM/30/KILL/5 --pidfile \"$PIDFILE\"\n\trm -f \"$PIDFILE\"\n}\n\ncase \"$1\" in\n\tstart)\n\t\tlog_daemon_msg \"Starting $DESCRIPTION\" \"$NAME\"\n\t\tstart_service\n\t\tlog_end_msg $?\n\t\t;;\n\tstop)\n\t\tlog_daemon_msg \"Stopping $DESCRIPTION\" \"$NAME\"\n\t\tstop_service\n\t\tlog_end_msg $?\n\t\t;;\n\trestart|force-reload)\n\t\tlog_daemon_msg \"Restarting $DESCRIPTION\" \"$NAME\"\n\t\tstop_service\n\t\tstart_service\n\t\tlog_end_msg $?\n\t\t;;\n\tstatus)\n\t\tstatus_of_proc -p \"$PIDFILE\" \"$DAEMON\" \"$NAME\"\n\t\t;;\n\t*)\n\t\techo \"Usage: /etc/init.d/$NAME {start|stop|restart|force-reload|status}\" >&2\n\t\texit 3\n\t\t;;\nesac\n"@),
{
    reveal_strlit("\"\nPIDFILE=\"/var/run/$NAME.pid\"\nLOGFILE=\"/var/log/$NAME/$NAME.log\"\nDAEMON_ARGS=\"\"\n\n[ -x \"$DAEMON\" ] || exit 0\n[ -r \"/etc/default/$NAME\" ] && . \"/etc/default/$NAME\"\n. /lib/lsb/init-functions\n\nstart_service() {\n\tstart-stop-daemon --start --quiet --background --make-pidfile --pidfile \"$PIDFILE\" \\\n\t\t--chuid \"$RUN_AS\" --chdir \"$APP_DIR\" --startas /bin/sh -- \\\n\t\t-c \"exec $DAEMON $DAEMON_ARGS >> $LOGFILE 2>&1\"\n}\n\nstop_service() {\n\tstart-stop-daemon --stop --quiet --oknodo --retry=TERM/30/KILL/5 --pidfile \"$PIDFILE\"\n\trm -f \"$PIDFILE\"\n}\n\ncase \"$1\" in\n\tstart)\n\t\tlog_daemon_msg \"Starting $DESCRIPTION\" \"$NAME\"\n\t\tstart_service\n\t\tlog_end_msg $?\n\t\t;;\n\tstop)\n\t\tlog_daemon_msg \"Stopping $DESCRIPTION\" \"$NAME\"\n\t\tstop_service\n\t\tlog_end_msg $?\n\t\t;;\n\trestart|force-reload)\n\t\tlog_daemon_msg \"Restarting $DESCRIPTION\" \"$NAME\"\n\t\tstop_service\n\t\tstart_service\n\t\tlog_end_msg $?\n\t\t;;\n\tstatus)\n\t\tstatus_of_proc -p \"$PIDFILE\" \"$DAEMON\" \"$NAME\"\n\t\t;;\n\t*)\n\t\techo \"Usage: /etc/init.d/$NAME {start|stop|restart|force-reload|status}\" >&2\n\t\texit 3\n\t\t;;\nesac\n");
    reveal(unopened);
}

proof fn script_is_rendered(
    name: Seq<char>,
    c: ResolvedConfigView,
    generator_version: Seq<char>,
    version: Seq<char>,
    architecture: Seq<char>,
)
    ensures
        rendered(
            name,
            SYSV_INIT@,
            config_variables(c, generator_version, version, architecture),
        ) == Ok::<Seq<char>, ErrorView>(script_text(c, generator_version)),
{
    let values = config_variables(c, generator_version, version, architecture);
    vocabulary_is_named(c, generator_version, version, architecture);
    script_is_laid_out();
    script_piece_0_is_unbraced();
    script_piece_1_is_unbraced();
    script_piece_2_is_unbraced();
    script_piece_3_is_unbraced();
    script_piece_4_is_unbraced();
    script_piece_5_is_unbraced();
    script_piece_6_is_unbraced();
    script_piece_7_is_unbraced();
    script_piece_8_is_unbraced();
    script_piece_9_is_unbraced();
    script_ends_without_a_placeholder();
    let t10 = "\"\nPIDFILE=\"/var/run/$NAME.pid\"\nLOGFILE=\"/var/log/$NAME/$NAME.log\"\nDAEMON_ARGS=\"\"\n\n[ -x \"$DAEMON\" ] || exit 0\n[ -r \"/etc/default/$NAME\" ] && . \"/etc/default/$NAME\"\n. /lib/lsb/init-functions\n\nstart_service() {\n\tstart-stop-daemon --start --quiet --background --make-pidfile --pidfile \"$PIDFILE\" \\\n\t\t--chuid \"$RUN_AS\" --chdir \"$APP_DIR\" --startas /bin/sh -- \\\n\t\t-c \"exec $DAEMON $DAEMON_ARGS >> $LOGFILE 2>&1\"\n}\n\nstop_service() {\n\tstart-stop-daemon --stop --quiet --oknodo --retry=TERM/30/KILL/5 --pidfile \"$PIDFILE\"\n\trm -f \"$PIDFILE\"\n}\n\ncase \"$1\" in\n\tstart)\n\t\tlog_daemon_msg \"Starting $DESCRIPTION\" \"$NAME\"\n\t\tstart_service\n\t\tlog_end_msg $?\n\t\t;;\n\tstop)\n\t\tlog_daemon_msg \"Stopping $DESCRIPTION\" \"$NAME\"\n\t\tstop_service\n\t\tlog_end_msg $?\n\t\t;;\n\trestart|force-reload)\n\t\tlog_daemon_msg \"Restarting $DESCRIPTION\" \"$NAME\"\n\t\tstop_service\n\t\tstart_service\n\t\tlog_end_msg $?\n\t\t;;\n\tstatus)\n\t\tstatus_of_proc -p \"$PIDFILE\" \"$DAEMON\" \"$NAME\"\n\t\t;;\n\t*)\n\t\techo \"Usage: /etc/init.d/$NAME {start|stop|restart|force-reload|status}\" >&2\n\t\texit 3\n\t\t;;\nesac\n"@;
    let t9 = "/app\"\nDAEMON=\"$APP_DIR/"@ + placeholder("daemon_entrypoint"@) + t10;
    let t8 = "/"@ + placeholder("package_name"@) + t9;
    let t7 = "\"\nAPP_DIR=\""@ + placeholder("install_dir"@) + t8;
    let t6 = ":"@ + placeholder("group"@) + t7;
    let t5 = "\"\nRUN_AS=\""@ + placeholder("user"@) + t6;
    let t4 = "\"\nDESCRIPTION=\""@ + placeholder("package_description_shell"@) + t5;
    let t3 = "\n### END INIT INFO\n\nNAME=\""@ + placeholder("package_name"@) + t4;
    let t2 = "\n# Required-Start:    $local_fs $network $remote_fs $syslog\n# Required-Stop:     $local_fs $network $remote_fs $syslog\n# Default-Start:     2 3 4 5\n# Default-Stop:      0 1 6\n# Short-Description: "@ + placeholder("package_name"@) + t3;
    let t1 = "\n### BEGIN INIT INFO\n# Provides:          "@ + placeholder("package_name"@) + t2;
    let t0 = "#!/bin/sh\n# Generated by nativepkg "@ + placeholder("generator_version"@) + t1;
    let r10 = "\"\nPIDFILE=\"/var/run/$NAME.pid\"\nLOGFILE=\"/var/log/$NAME/$NAME.log\"\nDAEMON_ARGS=\"\"\n\n[ -x \"$DAEMON\" ] || exit 0\n[ -r \"/etc/default/$NAME\" ] && . \"/etc/default/$NAME\"\n. /lib/lsb/init-functions\n\nstart_service() {\n\tstart-stop-daemon --start --quiet --background --make-pidfile --pidfile \"$PIDFILE\" \\\n\t\t--chuid \"$RUN_AS\" --chdir \"$APP_DIR\" --startas /bin/sh -- \\\n\t\t-c \"exec $DAEMON $DAEMON_ARGS >> $LOGFILE 2>&1\"\n}\n\nstop_service() {\n\tstart-stop-daemon --stop --quiet --oknodo --retry=TERM/30/KILL/5 --pidfile \"$PIDFILE\"\n\trm -f \"$PIDFILE\"\n}\n\ncase \"$1\" in\n\tstart)\n\t\tlog_daemon_msg \"Starting $DESCRIPTION\" \"$NAME\"\n\t\tstart_service\n\t\tlog_end_msg $?\n\t\t;;\n\tstop)\n\t\tlog_daemon_msg \"Stopping $DESCRIPTION\" \"$NAME\"\n\t\tstop_service\n\t\tlog_end_msg $?\n\t\t;;\n\trestart|force-reload)\n\t\tlog_daemon_msg \"Restarting $DESCRIPTION\" \"$NAME\"\n\t\tstop_service\n\t\tstart_service\n\t\tlog_end_msg $?\n\t\t;;\n\tstatus)\n\t\tstatus_of_proc -p \"$PIDFILE\" \"$DAEMON\" \"$NAME\"\n\t\t;;\n\t*)\n\t\techo \"Usage: /etc/init.d/$NAME {start|stop|restart|force-reload|status}\" >&2\n\t\texit 3\n\t\t;;\nesac\n"@;
    let r9 = "/app\"\nDAEMON=\"$APP_DIR/"@ + or_empty(c.daemon_entrypoint) + r10;
    let r8 = "/"@ + c.package_name + r9;
    let r7 = "\"\nAPP_DIR=\""@ + c.install_dir + r8;
    let r6 = ":"@ + c.group + r7;
    let r5 = "\"\nRUN_AS=\""@ + c.user + r6;
    let r4 = "\"\nDESCRIPTION=\""@ + quoted(synopsis_of(c.description)) + r5;
    let r3 = "\n### END INIT INFO\n\nNAME=\""@ + c.package_name + r4;
    let r2 = "\n# Required-Start:    $local_fs $network $remote_fs $syslog\n# Required-Stop:     $local_fs $network $remote_fs $syslog\n# Default-Start:     2 3 4 5\n# Default-Stop:      0 1 6\n# Short-Description: "@ + c.package_name + r3;
    let r1 = "\n### BEGIN INIT INFO\n# Provides:          "@ + c.package_name + r2;
    let r0 = "#!/bin/sh\n# Generated by nativepkg "@ + generator_version + r1;
    unopened_text_is_unchanged(name, t10, values);
    filled_in(name, "/app\"\nDAEMON=\"$APP_DIR/"@, "daemon_entrypoint"@, or_empty(c.daemon_entrypoint), t10, r10, values);
    filled_in(name, "/"@, "package_name"@, c.package_name, t9, r9, values);
    filled_in(name, "\"\nAPP_DIR=\""@, "install_dir"@, c.install_dir, t8, r8, values);
    filled_in(name, ":"@, "group"@, c.group, t7, r7, values);
    filled_in(name, "\"\nRUN_AS=\""@, "user"@, c.user, t6, r6, values);
    filled_in(name, "\"\nDESCRIPTION=\""@, "package_description_shell"@, quoted(synopsis_of(c.description)), t5, r5, values);
    filled_in(name, "\n### END INIT INFO\n\nNAME=\""@, "package_name"@, c.package_name, t4, r4, values);
    filled_in(name, "\n# Required-Start:    $local_fs $network $remote_fs $syslog\n# Required-Stop:     $local_fs $network $remote_fs $syslog\n# Default-Start:     2 3 4 5\n# Default-Stop:      0 1 6\n# Short-Description: "@, "package_name"@, c.package_name, t3, r3, values);
    filled_in(name, "\n### BEGIN INIT INFO\n# Provides:          "@, "package_name"@, c.package_name, t2, r2, values);
    filled_in(name, "#!/bin/sh\n# Generated by nativepkg "@, "generator_version"@, generator_version, t1, r1, values);
}

proof fn script_says_name(c: ResolvedConfigView, generator_version: Seq<char>)
    ensures
        text_holds(
            script_text(c, generator_version),
            "\nNAME=\""@ + c.package_name + "\"\n"@,
        ),
{
    let r10 = "\"\nPIDFILE=\"/var/run/$NAME.pid\"\nLOGFILE=\"/var/log/$NAME/$NAME.log\"\nDAEMON_ARGS=\"\"\n\n[ -x \"$DAEMON\" ] || exit 0\n[ -r \"/etc/default/$NAME\" ] && . \"/etc/default/$NAME\"\n. /lib/lsb/init-functions\n\nstart_service() {\n\tstart-stop-daemon --start --quiet --background --make-pidfile --pidfile \"$PIDFILE\" \\\n\t\t--chuid \"$RUN_AS\" --chdir \"$APP_DIR\" --startas /bin/sh -- \\\n\t\t-c \"exec $DAEMON $DAEMON_ARGS >> $LOGFILE 2>&1\"\n}\n\nstop_service() {\n\tstart-stop-daemon --stop --quiet --oknodo --retry=TERM/30/KILL/5 --pidfile \"$PIDFILE\"\n\trm -f \"$PIDFILE\"\n}\n\ncase \"$1\" in\n\tstart)\n\t\tlog_daemon_msg \"Starting $DESCRIPTION\" \"$NAME\"\n\t\tstart_service\n\t\tlog_end_msg $?\n\t\t;;\n\tstop)\n\t\tlog_daemon_msg \"Stopping $DESCRIPTION\" \"$NAME\"\n\t\tstop_service\n\t\tlog_end_msg $?\n\t\t;;\n\trestart|force-reload)\n\t\tlog_daemon_msg \"Restarting $DESCRIPTION\" \"$NAME\"\n\t\tstop_service\n\t\tstart_service\n\t\tlog_end_msg $?\n\t\t;;\n\tstatus)\n\t\tstatus_of_proc -p \"$PIDFILE\" \"$DAEMON\" \"$NAME\"\n\t\t;;\n\t*)\n\t\techo \"Usage: /etc/init.d/$NAME {start|stop|restart|force-reload|status}\" >&2\n\t\texit 3\n\t\t;;\nesac\n"@;
    let r9 = "/app\"\nDAEMON=\"$APP_DIR/"@ + or_empty(c.daemon_entrypoint) + r10;
    let r8 = "/"@ + c.package_name + r9;
    let r7 = "\"\nAPP_DIR=\""@ + c.install_dir + r8;
    let r6 = ":"@ + c.group + r7;
    let r5 = "\"\nRUN_AS=\""@ + c.user + r6;
    let r4 = "\"\nDESCRIPTION=\""@ + quoted(synopsis_of(c.description)) + r5;
    let r3 = "\n### END INIT INFO\n\nNAME=\""@ + c.package_name + r4;
    let r2 = "\n# Required-Start:    $local_fs $network $remote_fs $syslog\n# Required-Stop:     $local_fs $network $remote_fs $syslog\n# Default-Start:     2 3 4 5\n# Default-Stop:      0 1 6\n# Short-Description: "@ + c.package_name + r3;
    let r1 = "\n### BEGIN INIT INFO\n# Provides:          "@ + c.package_name + r2;
    let r0 = "#!/bin/sh\n# Generated by nativepkg "@ + generator_version + r1;
    let line = "\nNAME=\""@ + c.package_name + "\"\n"@;
    assert("\n### END INIT INFO\n\nNAME=\""@ =~= "\n### END INIT INFO\n"@ + "\nNAME=\""@) by {
        reveal_strlit("\n### END INIT INFO\n\nNAME=\"");
        reveal_strlit("\n### END INIT INFO\n");
        reveal_strlit("\nNAME=\"");
    }
    assert("\"\nDESCRIPTION=\""@ =~= "\"\n"@ + "DESCRIPTION=\""@) by {
        reveal_strlit("\"\nDESCRIPTION=\"");
        reveal_strlit("\"\n");
        reveal_strlit("DESCRIPTION=\"");
    }
    let after = "DESCRIPTION=\""@ + quoted(synopsis_of(c.description)) + r5;
    assert(r3 =~= "\n### END INIT INFO\n"@ + line + after);
    text_holds_inside("\n### END INIT INFO\n"@, line, after);
    text_holds_behind("\n# Required-Start:    $local_fs $network $remote_fs $syslog\n# Required-Stop:     $local_fs $network $remote_fs $syslog\n# Default-Start:     2 3 4 5\n# Default-Stop:      0 1 6\n# Short-Description: "@ + c.package_name, r3, line);
    text_holds_behind("\n### BEGIN INIT INFO\n# Provides:          "@ + c.package_name, r2, line);
    text_holds_behind("#!/bin/sh\n# Generated by nativepkg "@ + generator_version, r1, line);
}

proof fn script_says_description(c: ResolvedConfigView, generator_version: Seq<char>)
    ensures
        text_holds(
            script_text(c, generator_version),
            "\nDESCRIPTION=\""@ + quoted(synopsis_of(c.description)) + "\"\n"@,
        ),
{
    let r10 = "\"\nPIDFILE=\"/var/run/$NAME.pid\"\nLOGFILE=\"/var/log/$NAME/$NAME.log\"\nDAEMON_ARGS=\"\"\n\n[ -x \"$DAEMON\" ] || exit 0\n[ -r \"/etc/default/$NAME\" ] && . \"/etc/default/$NAME\"\n. /lib/lsb/init-functions\n\nstart_service() {\n\tstart-stop-daemon --start --quiet --background --make-pidfile --pidfile \"$PIDFILE\" \\\n\t\t--chuid \"$RUN_AS\" --chdir \"$APP_DIR\" --startas /bin/sh -- \\\n\t\t-c \"exec $DAEMON $DAEMON_ARGS >> $LOGFILE 2>&1\"\n}\n\nstop_service() {\n\tstart-stop-daemon --stop --quiet --oknodo --retry=TERM/30/KILL/5 --pidfile \"$PIDFILE\"\n\trm -f \"$PIDFILE\"\n}\n\ncase \"$1\" in\n\tstart)\n\t\tlog_daemon_msg \"Starting $DESCRIPTION\" \"$NAME\"\n\t\tstart_service\n\t\tlog_end_msg $?\n\t\t;;\n\tstop)\n\t\tlog_daemon_msg \"Stopping $DESCRIPTION\" \"$NAME\"\n\t\tstop_service\n\t\tlog_end_msg $?\n\t\t;;\n\trestart|force-reload)\n\t\tlog_daemon_msg \"Restarting $DESCRIPTION\" \"$NAME\"\n\t\tstop_service\n\t\tstart_service\n\t\tlog_end_msg $?\n\t\t;;\n\tstatus)\n\t\tstatus_of_proc -p \"$PIDFILE\" \"$DAEMON\" \"$NAME\"\n\t\t;;\n\t*)\n\t\techo \"Usage: /etc/init.d/$NAME {start|stop|restart|force-reload|status}\" >&2\n\t\texit 3\n\t\t;;\nesac\n"@;
    let r9 = "/app\"\nDAEMON=\"$APP_DIR/"@ + or_empty(c.daemon_entrypoint) + r10;
    let r8 = "/"@ + c.package_name + r9;
    let r7 = "\"\nAPP_DIR=\""@ + c.install_dir + r8;
    let r6 = ":"@ + c.group + r7;
    let r5 = "\"\nRUN_AS=\""@ + c.user + r6;
    let r4 = "\"\nDESCRIPTION=\""@ + quoted(synopsis_of(c.description)) + r5;
    let r3 = "\n### END INIT INFO\n\nNAME=\""@ + c.package_name + r4;
    let r2 = "\n# Required-Start:    $local_fs $network $remote_fs $syslog\n# Required-Stop:     $local_fs $network $remote_fs $syslog\n# Default-Start:     2 3 4 5\n# Default-Stop:      0 1 6\n# Short-Description: "@ + c.package_name + r3;
    let r1 = "\n### BEGIN INIT INFO\n# Provides:          "@ + c.package_name + r2;
    let r0 = "#!/bin/sh\n# Generated by nativepkg "@ + generator_version + r1;
    let line = "\nDESCRIPTION=\""@ + quoted(synopsis_of(c.description)) + "\"\n"@;
    assert("\"\nDESCRIPTION=\""@ =~= "\""@ + "\nDESCRIPTION=\""@) by {
        reveal_strlit("\"\nDESCRIPTION=\"");
        reveal_strlit("\"");
        reveal_strlit("\nDESCRIPTION=\"");
    }
    assert("\"\nRUN_AS=\""@ =~= "\"\n"@ + "RUN_AS=\""@) by {
        reveal_strlit("\"\nRUN_AS=\"");
        reveal_strlit("\"\n");
        reveal_strlit("RUN_AS=\"");
    }
    let after = "RUN_AS=\""@ + c.user + r6;
    assert(r4 =~= "\""@ + line + after);
    text_holds_inside("\""@, line, after);
    text_holds_behind("\n### END INIT INFO\n\nNAME=\""@ + c.package_name, r4, line);
    text_holds_behind("\n# Required-Start:    $local_fs $network $remote_fs $syslog\n# Required-Stop:     $local_fs $network $remote_fs $syslog\n# Default-Start:     2 3 4 5\n# Default-Stop:      0 1 6\n# Short-Description: "@ + c.package_name, r3, line);
    text_holds_behind("\n### BEGIN INIT INFO\n# Provides:          "@ + c.package_name, r2, line);
    text_holds_behind("#!/bin/sh\n# Generated by nativepkg "@ + generator_version, r1, line);
}

proof fn script_says_account(c: ResolvedConfigView, generator_version: Seq<char>)
    ensures
        text_holds(
            script_text(c, generator_version),
            "\nRUN_AS=\""@ + c.user + ":"@ + c.group + "\"\n"@,
        ),
{
    let r10 = "\"\nPIDFILE=\"/var/run/$NAME.pid\"\nLOGFILE=\"/var/log/$NAME/$NAME.log\"\nDAEMON_ARGS=\"\"\n\n[ -x \"$DAEMON\" ] || exit 0\n[ -r \"/etc/default/$NAME\" ] && . \"/etc/default/$NAME\"\n. /lib/lsb/init-functions\n\nstart_service() {\n\tstart-stop-daemon --start --quiet --background --make-pidfile --pidfile \"$PIDFILE\" \\\n\t\t--chuid \"$RUN_AS\" --chdir \"$APP_DIR\" --startas /bin/sh -- \\\n\t\t-c \"exec $DAEMON $DAEMON_ARGS >> $LOGFILE 2>&1\"\n}\n\nstop_service() {\n\tstart-stop-daemon --stop --quiet --oknodo --retry=TERM/30/KILL/5 --pidfile \"$PIDFILE\"\n\trm -f \"$PIDFILE\"\n}\n\ncase \"$1\" in\n\tstart)\n\t\tlog_daemon_msg \"Starting $DESCRIPTION\" \"$NAME\"\n\t\tstart_service\n\t\tlog_end_msg $?\n\t\t;;\n\tstop)\n\t\tlog_daemon_msg \"Stopping $DESCRIPTION\" \"$NAME\"\n\t\tstop_service\n\t\tlog_end_msg $?\n\t\t;;\n\trestart|force-reload)\n\t\tlog_daemon_msg \"Restarting $DESCRIPTION\" \"$NAME\"\n\t\tstop_service\n\t\tstart_service\n\t\tlog_end_msg $?\n\t\t;;\n\tstatus)\n\t\tstatus_of_proc -p \"$PIDFILE\" \"$DAEMON\" \"$NAME\"\n\t\t;;\n\t*)\n\t\techo \"Usage: /etc/init.d/$NAME {start|stop|restart|force-reload|status}\" >&2\n\t\texit 3\n\t\t;;\nesac\n"@;
    let r9 = "/app\"\nDAEMON=\"$APP_DIR/"@ + or_empty(c.daemon_entrypoint) + r10;
    let r8 = "/"@ + c.package_name + r9;
    let r7 = "\"\nAPP_DIR=\""@ + c.install_dir + r8;
    let r6 = ":"@ + c.group + r7;
    let r5 = "\"\nRUN_AS=\""@ + c.user + r6;
    let r4 = "\"\nDESCRIPTION=\""@ + quoted(synopsis_of(c.description)) + r5;
    let r3 = "\n### END INIT INFO\n\nNAME=\""@ + c.package_name + r4;
    let r2 = "\n# Required-Start:    $local_fs $network $remote_fs $syslog\n# Required-Stop:     $local_fs $network $remote_fs $syslog\n# Default-Start:     2 3 4 5\n# Default-Stop:      0 1 6\n# Short-Description: "@ + c.package_name + r3;
    let r1 = "\n### BEGIN INIT INFO\n# Provides:          "@ + c.package_name + r2;
    let r0 = "#!/bin/sh\n# Generated by nativepkg "@ + generator_version + r1;
    let line = "\nRUN_AS=\""@ + c.user + ":"@ + c.group + "\"\n"@;
    assert("\"\nRUN_AS=\""@ =~= "\""@ + "\nRUN_AS=\""@) by {
        reveal_strlit("\"\nRUN_AS=\"");
        reveal_strlit("\"");
        reveal_strlit("\nRUN_AS=\"");
    }
    assert("\"\nAPP_DIR=\""@ =~= "\"\n"@ + "APP_DIR=\""@) by {
        reveal_strlit("\"\nAPP_DIR=\"");
        reveal_strlit("\"\n");
        reveal_strlit("APP_DIR=\"");
    }
    let after = "APP_DIR=\""@ + c.install_dir + r8;
    assert(r5 =~= "\""@ + line + after);
    text_holds_inside("\""@, line, after);
    text_holds_behind("\"\nDESCRIPTION=\""@ + quoted(synopsis_of(c.description)), r5, line);
    text_holds_behind("\n### END INIT INFO\n\nNAME=\""@ + c.package_name, r4, line);
    text_holds_behind("\n# Required-Start:    $local_fs $network $remote_fs $syslog\n# Required-Stop:     $local_fs $network $remote_fs $syslog\n# Default-Start:     2 3 4 5\n# Default-Stop:      0 1 6\n# Short-Description: "@ + c.package_name, r3, line);
    text_holds_behind("\n### BEGIN INIT INFO\n# Provides:          "@ + c.package_name, r2, line);
    text_holds_behind("#!/bin/sh\n# Generated by nativepkg "@ + generator_version, r1, line);
}

proof fn script_says_directory(c: ResolvedConfigView, generator_version: Seq<char>)
    ensures
        text_holds(
            script_text(c, generator_version),
            "\nAPP_DIR=\""@ + c.install_dir + "/"@ + c.package_name + "/app\"\n"@,
        ),
{
    let r10 = "\"\nPIDFILE=\"/var/run/$NAME.pid\"\nLOGFILE=\"/var/log/$NAME/$NAME.log\"\nDAEMON_ARGS=\"\"\n\n[ -x \"$DAEMON\" ] || exit 0\n[ -r \"/etc/default/$NAME\" ] && . \"/etc/default/$NAME\"\n. /lib/lsb/init-functions\n\nstart_service() {\n\tstart-stop-daemon --start --quiet --background --make-pidfile --pidfile \"$PIDFILE\" \\\n\t\t--chuid \"$RUN_AS\" --chdir \"$APP_DIR\" --startas /bin/sh -- \\\n\t\t-c \"exec $DAEMON $DAEMON_ARGS >> $LOGFILE 2>&1\"\n}\n\nstop_service() {\n\tstart-stop-daemon --stop --quiet --oknodo --retry=TERM/30/KILL/5 --pidfile \"$PIDFILE\"\n\trm -f \"$PIDFILE\"\n}\n\ncase \"$1\" in\n\tstart)\n\t\tlog_daemon_msg \"Starting $DESCRIPTION\" \"$NAME\"\n\t\tstart_service\n\t\tlog_end_msg $?\n\t\t;;\n\tstop)\n\t\tlog_daemon_msg \"Stopping $DESCRIPTION\" \"$NAME\"\n\t\tstop_service\n\t\tlog_end_msg $?\n\t\t;;\n\trestart|force-reload)\n\t\tlog_daemon_msg \"Restarting $DESCRIPTION\" \"$NAME\"\n\t\tstop_service\n\t\tstart_service\n\t\tlog_end_msg $?\n\t\t;;\n\tstatus)\n\t\tstatus_of_proc -p \"$PIDFILE\" \"$DAEMON\" \"$NAME\"\n\t\t;;\n\t*)\n\t\techo \"Usage: /etc/init.d/$NAME {start|stop|restart|force-reload|status}\" >&2\n\t\texit 3\n\t\t;;\nesac\n"@;
    let r9 = "/app\"\nDAEMON=\"$APP_DIR/"@ + or_empty(c.daemon_entrypoint) + r10;
    let r8 = "/"@ + c.package_name + r9;
    let r7 = "\"\nAPP_DIR=\""@ + c.install_dir + r8;
    let r6 = ":"@ + c.group + r7;
    let r5 = "\"\nRUN_AS=\""@ + c.user + r6;
    let r4 = "\"\nDESCRIPTION=\""@ + quoted(synopsis_of(c.description)) + r5;
    let r3 = "\n### END INIT INFO\n\nNAME=\""@ + c.package_name + r4;
    let r2 = "\n# Required-Start:    $local_fs $network $remote_fs $syslog\n# Required-Stop:     $local_fs $network $remote_fs $syslog\n# Default-Start:     2 3 4 5\n# Default-Stop:      0 1 6\n# Short-Description: "@ + c.package_name + r3;
    let r1 = "\n### BEGIN INIT INFO\n# Provides:          "@ + c.package_name + r2;
    let r0 = "#!/bin/sh\n# Generated by nativepkg "@ + generator_version + r1;
    let line = "\nAPP_DIR=\""@ + c.install_dir + "/"@ + c.package_name + "/app\"\n"@;
    assert("\"\nAPP_DIR=\""@ =~= "\""@ + "\nAPP_DIR=\""@) by {
        reveal_strlit("\"\nAPP_DIR=\"");
        reveal_strlit("\"");
        reveal_strlit("\nAPP_DIR=\"");
    }
    assert("/app\"\nDAEMON=\"$APP_DIR/"@ =~= "/app\"\n"@ + "DAEMON=\"$APP_DIR/"@) by {
        reveal_strlit("/app\"\nDAEMON=\"$APP_DIR/");
        reveal_strlit("/app\"\n");
        reveal_strlit("DAEMON=\"$APP_DIR/");
    }
    let after = "DAEMON=\"$APP_DIR/"@ + or_empty(c.daemon_entrypoint) + r10;
    assert(r7 =~= "\""@ + line + after);
    text_holds_inside("\""@, line, after);
    text_holds_behind(":"@ + c.group, r7, line);
    text_holds_behind("\"\nRUN_AS=\""@ + c.user, r6, line);
    text_holds_behind("\"\nDESCRIPTION=\""@ + quoted(synopsis_of(c.description)), r5, line);
    text_holds_behind("\n### END INIT INFO\n\nNAME=\""@ + c.package_name, r4, line);
    text_holds_behind("\n# Required-Start:    $local_fs $network $remote_fs $syslog\n# Required-Stop:     $local_fs $network $remote_fs $syslog\n# Default-Start:     2 3 4 5\n# Default-Stop:      0 1 6\n# Short-Description: "@ + c.package_name, r3, line);
    text_holds_behind("\n### BEGIN INIT INFO\n# Provides:          "@ + c.package_name, r2, line);
    text_holds_behind("#!/bin/sh\n# Generated by nativepkg "@ + generator_version, r1, line);
}

proof fn script_says_command(c: ResolvedConfigView, generator_version: Seq<char>)
    ensures
        text_holds(
            script_text(c, generator_version),
            "\nDAEMON=\"$APP_DIR/"@ + or_empty(c.daemon_entrypoint) + "\"\n"@,
        ),
{
    let r10 = "\"\nPIDFILE=\"/var/run/$NAME.pid\"\nLOGFILE=\"/var/log/$NAME/$NAME.log\"\nDAEMON_ARGS=\"\"\n\n[ -x \"$DAEMON\" ] || exit 0\n[ -r \"/etc/default/$NAME\" ] && . \"/etc/default/$NAME\"\n. /lib/lsb/init-functions\n\nstart_service() {\n\tstart-stop-daemon --start --quiet --background --make-pidfile --pidfile \"$PIDFILE\" \\\n\t\t--chuid \"$RUN_AS\" --chdir \"$APP_DIR\" --startas /bin/sh -- \\\n\t\t-c \"exec $DAEMON $DAEMON_ARGS >> $LOGFILE 2>&1\"\n}\n\nstop_service() {\n\tstart-stop-daemon --stop --quiet --oknodo --retry=TERM/30/KILL/5 --pidfile \"$PIDFILE\"\n\trm -f \"$PIDFILE\"\n}\n\ncase \"$1\" in\n\tstart)\n\t\tlog_daemon_msg \"Starting $DESCRIPTION\" \"$NAME\"\n\t\tstart_service\n\t\tlog_end_msg $?\n\t\t;;\n\tstop)\n\t\tlog_daemon_msg \"Stopping $DESCRIPTION\" \"$NAME\"\n\t\tstop_service\n\t\tlog_end_msg $?\n\t\t;;\n\trestart|force-reload)\n\t\tlog_daemon_msg \"Restarting $DESCRIPTION\" \"$NAME\"\n\t\tstop_service\n\t\tstart_service\n\t\tlog_end_msg $?\n\t\t;;\n\tstatus)\n\t\tstatus_of_proc -p \"$PIDFILE\" \"$DAEMON\" \"$NAME\"\n\t\t;;\n\t*)\n\t\techo \"Usage: /etc/init.d/$NAME {start|stop|restart|force-reload|status}\" >&2\n\t\texit 3\n\t\t;;\nesac\n"@;
    let r9 = "/app\"\nDAEMON=\"$APP_DIR/"@ + or_empty(c.daemon_entrypoint) + r10;
    let r8 = "/"@ + c.package_name + r9;
    let r7 = "\"\nAPP_DIR=\""@ + c.install_dir + r8;
    let r6 = ":"@ + c.group + r7;
    let r5 = "\"\nRUN_AS=\""@ + c.user + r6;
    let r4 = "\"\nDESCRIPTION=\""@ + quoted(synopsis_of(c.description)) + r5;
    let r3 = "\n### END INIT INFO\n\nNAME=\""@ + c.package_name + r4;
    let r2 = "\n# Required-Start:    $local_fs $network $remote_fs $syslog\n# Required-Stop:     $local_fs $network $remote_fs $syslog\n# Default-Start:     2 3 4 5\n# Default-Stop:      0 1 6\n# Short-Description: "@ + c.package_name + r3;
    let r1 = "\n### BEGIN INIT INFO\n# Provides:          "@ + c.package_name + r2;
    let r0 = "#!/bin/sh\n# Generated by nativepkg "@ + generator_version + r1;
    let line = "\nDAEMON=\"$APP_DIR/"@ + or_empty(c.daemon_entrypoint) + "\"\n"@;
    assert("/app\"\nDAEMON=\"$APP_DIR/"@ =~= "/app\""@ + "\nDAEMON=\"$APP_DIR/"@) by {
        reveal_strlit("/app\"\nDAEMON=\"$APP_DIR/");
        reveal_strlit("/app\"");
        reveal_strlit("\nDAEMON=\"$APP_DIR/");
    }
    assert("\"\nPIDFILE=\"/var/run/$NAME.pid\"\nLOGFILE=\"/var/log/$NAME/$NAME.log\"\nDAEMON_ARGS=\"\"\n\n[ -x \"$DAEMON\" ] || exit 0\n[ -r \"/etc/default/$NAME\" ] && . \"/etc/default/$NAME\"\n. /lib/lsb/init-functions\n\nstart_service() {\n\tstart-stop-daemon --start --quiet --background --make-pidfile --pidfile \"$PIDFILE\" \\\n\t\t--chuid \"$RUN_AS\" --chdir \"$APP_DIR\" --startas /bin/sh -- \\\n\t\t-c \"exec $DAEMON $DAEMON_ARGS >> $LOGFILE 2>&1\"\n}\n\nstop_service() {\n\tstart-stop-daemon --stop --quiet --oknodo --retry=TERM/30/KILL/5 --pidfile \"$PIDFILE\"\n\trm -f \"$PIDFILE\"\n}\n\ncase \"$1\" in\n\tstart)\n\t\tlog_daemon_msg \"Starting $DESCRIPTION\" \"$NAME\"\n\t\tstart_service\n\t\tlog_end_msg $?\n\t\t;;\n\tstop)\n\t\tlog_daemon_msg \"Stopping $DESCRIPTION\" \"$NAME\"\n\t\tstop_service\n\t\tlog_end_msg $?\n\t\t;;\n\trestart|force-reload)\n\t\tlog_daemon_msg \"Restarting $DESCRIPTION\" \"$NAME\"\n\t\tstop_service\n\t\tstart_service\n\t\tlog_end_msg $?\n\t\t;;\n\tstatus)\n\t\tstatus_of_proc -p \"$PIDFILE\" \"$DAEMON\" \"$NAME\"\n\t\t;;\n\t*)\n\t\techo \"Usage: /etc/init.d/$NAME {start|stop|restart|force-reload|status}\" >&2\n\t\texit 3\n\t\t;;\nesac\n"@ =~= "\"\n"@ + "PIDFILE=\"/var/run/$NAME.pid\"\nLOGFILE=\"/var/log/$NAME/$NAME.log\"\nDAEMON_ARGS=\"\"\n\n[ -x \"$DAEMON\" ] || exit 0\n[ -r \"/etc/default/$NAME\" ] && . \"/etc/default/$NAME\"\n. /lib/lsb/init-functions\n\nstart_service() {\n\tstart-stop-daemon --start --quiet --background --make-pidfile --pidfile \"$PIDFILE\" \\\n\t\t--chuid \"$RUN_AS\" --chdir \"$APP_DIR\" --startas /bin/sh -- \\\n\t\t-c \"exec $DAEMON $DAEMON_ARGS >> $LOGFILE 2>&1\"\n}\n\nstop_service() {\n\tstart-stop-daemon --stop --quiet --oknodo --retry=TERM/30/KILL/5 --pidfile \"$PIDFILE\"\n\trm -f \"$PIDFILE\"\n}\n\ncase \"$1\" in\n\tstart)\n\t\tlog_daemon_msg \"Starting $DESCRIPTION\" \"$NAME\"\n\t\tstart_service\n\t\tlog_end_msg $?\n\t\t;;\n\tstop)\n\t\tlog_daemon_msg \"Stopping $DESCRIPTION\" \"$NAME\"\n\t\tstop_service\n\t\tlog_end_msg $?\n\t\t;;\n\trestart|force-reload)\n\t\tlog_daemon_msg \"Restarting $DESCRIPTION\" \"$NAME\"\n\t\tstop_service\n\t\tstart_service\n\t\tlog_end_msg $?\n\t\t;;\n\tstatus)\n\t\tstatus_of_proc -p \"$PIDFILE\" \"$DAEMON\" \"$NAME\"\n\t\t;;\n\t*)\n\t\techo \"Usage: /etc/init.d/$NAME {start|stop|restart|force-reload|status}\" >&2\n\t\texit 3\n\t\t;;\nesac\n"@) by {
        reveal_strlit("\"\nPIDFILE=\"/var/run/$NAME.pid\"\nLOGFILE=\"/var/log/$NAME/$NAME.log\"\nDAEMON_ARGS=\"\"\n\n[ -x \"$DAEMON\" ] || exit 0\n[ -r \"/etc/default/$NAME\" ] && . \"/etc/default/$NAME\"\n. /lib/lsb/init-functions\n\nstart_service() {\n\tstart-stop-daemon --start --quiet --background --make-pidfile --pidfile \"$PIDFILE\" \\\n\t\t--chuid \"$RUN_AS\" --chdir \"$APP_DIR\" --startas /bin/sh -- \\\n\t\t-c \"exec $DAEMON $DAEMON_ARGS >> $LOGFILE 2>&1\"\n}\n\nstop_service() {\n\tstart-stop-daemon --stop --quiet --oknodo --retry=TERM/30/KILL/5 --pidfile \"$PIDFILE\"\n\trm -f \"$PIDFILE\"\n}\n\ncase \"$1\" in\n\tstart)\n\t\tlog_daemon_msg \"Starting $DESCRIPTION\" \"$NAME\"\n\t\tstart_service\n\t\tlog_end_msg $?\n\t\t;;\n\tstop)\n\t\tlog_daemon_msg \"Stopping $DESCRIPTION\" \"$NAME\"\n\t\tstop_service\n\t\tlog_end_msg $?\n\t\t;;\n\trestart|force-reload)\n\t\tlog_daemon_msg \"Restarting $DESCRIPTION\" \"$NAME\"\n\t\tstop_service\n\t\tstart_service\n\t\tlog_end_msg $?\n\t\t;;\n\tstatus)\n\t\tstatus_of_proc -p \"$PIDFILE\" \"$DAEMON\" \"$NAME\"\n\t\t;;\n\t*)\n\t\techo \"Usage: /etc/init.d/$NAME {start|stop|restart|force-reload|status}\" >&2\n\t\texit 3\n\t\t;;\nesac\n");
        reveal_strlit("\"\n");
        reveal_strlit("PIDFILE=\"/var/run/$NAME.pid\"\nLOGFILE=\"/var/log/$NAME/$NAME.log\"\nDAEMON_ARGS=\"\"\n\n[ -x \"$DAEMON\" ] || exit 0\n[ -r \"/etc/default/$NAME\" ] && . \"/etc/default/$NAME\"\n. /lib/lsb/init-functions\n\nstart_service() {\n\tstart-stop-daemon --start --quiet --background --make-pidfile --pidfile \"$PIDFILE\" \\\n\t\t--chuid \"$RUN_AS\" --chdir \"$APP_DIR\" --startas /bin/sh -- \\\n\t\t-c \"exec $DAEMON $DAEMON_ARGS >> $LOGFILE 2>&1\"\n}\n\nstop_service() {\n\tstart-stop-daemon --stop --quiet --oknodo --retry=TERM/30/KILL/5 --pidfile \"$PIDFILE\"\n\trm -f \"$PIDFILE\"\n}\n\ncase \"$1\" in\n\tstart)\n\t\tlog_daemon_msg \"Starting $DESCRIPTION\" \"$NAME\"\n\t\tstart_service\n\t\tlog_end_msg $?\n\t\t;;\n\tstop)\n\t\tlog_daemon_msg \"Stopping $DESCRIPTION\" \"$NAME\"\n\t\tstop_service\n\t\tlog_end_msg $?\n\t\t;;\n\trestart|force-reload)\n\t\tlog_daemon_msg \"Restarting $DESCRIPTION\" \"$NAME\"\n\t\tstop_service\n\t\tstart_service\n\t\tlog_end_msg $?\n\t\t;;\n\tstatus)\n\t\tstatus_of_proc -p \"$PIDFILE\" \"$DAEMON\" \"$NAME\"\n\t\t;;\n\t*)\n\t\techo \"Usage: /etc/init.d/$NAME {start|stop|restart|force-reload|status}\" >&2\n\t\texit 3\n\t\t;;\nesac\n");
    }
    let after = "PIDFILE=\"/var/run/$NAME.pid\"\nLOGFILE=\"/var/log/$NAME/$NAME.log\"\nDAEMON_ARGS=\"\"\n\n[ -x \"$DAEMON\" ] || exit 0\n[ -r \"/etc/default/$NAME\" ] && . \"/etc/default/$NAME\"\n. /lib/lsb/init-functions\n\nstart_service() {\n\tstart-stop-daemon --start --quiet --background --make-pidfile --pidfile \"$PIDFILE\" \\\n\t\t--chuid \"$RUN_AS\" --chdir \"$APP_DIR\" --startas /bin/sh -- \\\n\t\t-c \"exec $DAEMON $DAEMON_ARGS >> $LOGFILE 2>&1\"\n}\n\nstop_service() {\n\tstart-stop-daemon --stop --quiet --oknodo --retry=TERM/30/KILL/5 --pidfile \"$PIDFILE\"\n\trm -f \"$PIDFILE\"\n}\n\ncase \"$1\" in\n\tstart)\n\t\tlog_daemon_msg \"Starting $DESCRIPTION\" \"$NAME\"\n\t\tstart_service\n\t\tlog_end_msg $?\n\t\t;;\n\tstop)\n\t\tlog_daemon_msg \"Stopping $DESCRIPTION\" \"$NAME\"\n\t\tstop_service\n\t\tlog_end_msg $?\n\t\t;;\n\trestart|force-reload)\n\t\tlog_daemon_msg \"Restarting $DESCRIPTION\" \"$NAME\"\n\t\tstop_service\n\t\tstart_service\n\t\tlog_end_msg $?\n\t\t;;\n\tstatus)\n\t\tstatus_of_proc -p \"$PIDFILE\" \"$DAEMON\" \"$NAME\"\n\t\t;;\n\t*)\n\t\techo \"Usage: /etc/init.d/$NAME {start|stop|restart|force-reload|status}\" >&2\n\t\texit 3\n\t\t;;\nesac\n"@;
    assert(r9 =~= "/app\""@ + line + after);
    text_holds_inside("/app\""@, line, after);
    text_holds_behind("/"@ + c.package_name, r9, line);
    text_holds_behind("\"\nAPP_DIR=\""@ + c.install_dir, r8, line);
    text_holds_behind(":"@ + c.group, r7, line);
    text_holds_behind("\"\nRUN_AS=\""@ + c.user, r6, line);
    text_holds_behind("\"\nDESCRIPTION=\""@ + quoted(synopsis_of(c.description)), r5, line);
    text_holds_behind("\n### END INIT INFO\n\nNAME=\""@ + c.package_name, r4, line);
    text_holds_behind("\n# Required-Start:    $local_fs $network $remote_fs $syslog\n# Required-Stop:     $local_fs $network $remote_fs $syslog\n# Default-Start:     2 3 4 5\n# Default-Stop:      0 1 6\n# Short-Description: "@ + c.package_name, r3, line);
    text_holds_behind("\n### BEGIN INIT INFO\n# Provides:          "@ + c.package_name, r2, line);
    text_holds_behind("#!/bin/sh\n# Generated by nativepkg "@ + generator_version, r1, line);
}

/// The init script runs the daemon of the package, as the user and the group it is configured for,
/// in the application's directory, under the package's name.
pub proof fn the_init_script_runs_the_daemon(
    name: Seq<char>,
    c: ResolvedConfigView,
    generator_version: Seq<char>,
    version: Seq<char>,
    architecture: Seq<char>,
)
    ensures
        rendered(
            name,
            SYSV_INIT@,
            config_variables(c, generator_version, version, architecture),
        ) matches Ok(text) && {
            &&& text_holds(text, "\nNAME=\""@ + c.package_name + "\"\n"@)
            &&& text_holds(text, "\nDESCRIPTION=\""@ + quoted(synopsis_of(c.description)) + "\"\n"@)
            &&& text_holds(text, "\nRUN_AS=\""@ + c.user + ":"@ + c.group + "\"\n"@)
            &&& text_holds(text, "\nAPP_DIR=\""@ + c.install_dir + "/"@ + c.package_name + "/app\"\n"@)
            &&& text_holds(text, "\nDAEMON=\"$APP_DIR/"@ + or_empty(c.daemon_entrypoint) + "\"\n"@)
        },
{
    script_is_rendered(name, c, generator_version, version, architecture);
    script_says_name(c, generator_version);
    script_says_description(c, generator_version);
    script_says_account(c, generator_version);
    script_says_directory(c, generator_version);
    script_says_command(c, generator_version);
}

} // verus!
