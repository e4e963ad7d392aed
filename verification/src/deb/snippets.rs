//! The fragments Debian maintainer scripts are composed from.
//!
//! They follow the `dh_installsystemd` fragments: a guard on `/run/systemd/system` rather than
//! on a program existing, `deb-systemd-helper enable`, which respects an administrator's
//! disable, `deb-systemd-invoke`, which honours `policy-rc.d`, and `|| true` on every service
//! call.

use vstd::prelude::*;

verus! {

pub const POSTINST_ACCOUNT: &'static str = "# The account the service runs as.
if [ \"$1\" = \"configure\" ]; then
\tif ! getent group '{{ group }}' > /dev/null; then
\t\taddgroup --system '{{ group }}'
\tfi
\tif ! getent passwd '{{ user }}' > /dev/null; then
\t\tadduser --system --no-create-home --home /nonexistent --shell /usr/sbin/nologin --ingroup '{{ group }}' '{{ user }}'
\tfi
fi
";

pub const POSTINST_LOGDIR: &'static str = "# The directory the service logs to.
if [ \"$1\" = \"configure\" ]; then
\tif [ -d /run/systemd/system ] && command -v systemd-tmpfiles > /dev/null; then
\t\tsystemd-tmpfiles --create '/usr/lib/tmpfiles.d/{{ package_name }}.conf' || true
\tfi
\tif [ ! -d '/var/log/{{ package_name }}' ]; then
\t\tmkdir -p '/var/log/{{ package_name }}'
\t\tchown '{{ user }}:{{ group }}' '/var/log/{{ package_name }}'
\t\tchmod 0755 '/var/log/{{ package_name }}'
\tfi
fi
";

pub const POSTINST_NPM_INSTALL: &'static str = "# Dependencies, installed on this machine.
if [ \"$1\" = \"configure\" ]; then
\tif ! command -v {{ install_binary }} > /dev/null; then
\t\techo '{{ package_name }}: {{ install_binary }} is needed to install dependencies' >&2
\t\texit 1
\tfi
\tcd '{{ install_dir }}/{{ package_name }}/app' && {{ install_command }}
fi
";

pub const POSTINST_SYSTEMD_ENABLE: &'static str = "# A unit an administrator disabled stays disabled.
if [ \"$1\" = \"configure\" ] || [ \"$1\" = \"abort-upgrade\" ] || [ \"$1\" = \"abort-deconfigure\" ] || [ \"$1\" = \"abort-remove\" ]; then
\tdeb-systemd-helper unmask '{{ package_name }}.service' > /dev/null || true
\tif deb-systemd-helper --quiet was-enabled '{{ package_name }}.service'; then
\t\tdeb-systemd-helper enable '{{ package_name }}.service' > /dev/null || true
\telse
\t\tdeb-systemd-helper update-state '{{ package_name }}.service' > /dev/null || true
\tfi
fi
";

pub const POSTINST_SYSTEMD_RESTART: &'static str = "# dpkg passes the previous version in the second argument on an upgrade.
if [ \"$1\" = \"configure\" ] || [ \"$1\" = \"abort-upgrade\" ] || [ \"$1\" = \"abort-deconfigure\" ] || [ \"$1\" = \"abort-remove\" ]; then
\tif [ -d /run/systemd/system ]; then
\t\tsystemctl --system daemon-reload > /dev/null || true
\t\tif [ -n \"$2\" ]; then
\t\t\tdeb-systemd-invoke restart '{{ package_name }}.service' > /dev/null || true
\t\telse
\t\t\tdeb-systemd-invoke start '{{ package_name }}.service' > /dev/null || true
\t\tfi
\tfi
fi
";

pub const POSTINST_SYSV: &'static str = "# Registered always; acted on only where systemd does not supervise the service.
if [ \"$1\" = \"configure\" ] || [ \"$1\" = \"abort-upgrade\" ] || [ \"$1\" = \"abort-deconfigure\" ] || [ \"$1\" = \"abort-remove\" ]; then
\tif [ -x '/etc/init.d/{{ package_name }}' ]; then
\t\tupdate-rc.d '{{ package_name }}' defaults > /dev/null || true
\t\tif ! [ -d /run/systemd/system ]; then
\t\t\tif [ -n \"$2\" ]; then
\t\t\t\tinvoke-rc.d '{{ package_name }}' restart || true
\t\t\telse
\t\t\t\tinvoke-rc.d '{{ package_name }}' start || true
\t\t\tfi
\t\tfi
\tfi
fi
";

pub const POSTINST_UPSTART: &'static str = "# Acted on only where systemd does not supervise the service.
if [ \"$1\" = \"configure\" ]; then
\tif ! [ -d /run/systemd/system ] && [ -e '/etc/init/{{ package_name }}.conf' ]; then
\t\tinitctl reload-configuration || true
\t\tif [ -n \"$2\" ]; then
\t\t\tinitctl restart '{{ package_name }}' || true
\t\telse
\t\t\tinitctl start '{{ package_name }}' || true
\t\tfi
\tfi
fi
";

pub const POSTRM_PURGE: &'static str = "# State outlives removal; only a purge destroys it.
if [ \"$1\" = \"purge\" ]; then
\trm -rf '/var/log/{{ package_name }}'
\tif command -v deluser > /dev/null; then
\t\tdeluser --system --quiet '{{ user }}' || true
\tfi
\tif command -v delgroup > /dev/null; then
\t\tdelgroup --system --quiet --only-if-empty '{{ group }}' || true
\tfi
fi
";

pub const POSTRM_SYSTEMD: &'static str = "if [ \"$1\" = \"remove\" ]; then
\tif [ -x /usr/bin/deb-systemd-helper ]; then
\t\tdeb-systemd-helper mask '{{ package_name }}.service' > /dev/null || true
\tfi
fi
if [ \"$1\" = \"purge\" ]; then
\tif [ -x /usr/bin/deb-systemd-helper ]; then
\t\tdeb-systemd-helper purge '{{ package_name }}.service' > /dev/null || true
\t\tdeb-systemd-helper unmask '{{ package_name }}.service' > /dev/null || true
\tfi
fi
";

pub const POSTRM_SYSTEMD_RELOAD: &'static str = "# The unit file is gone by now, so the reload observes its absence.
if [ \"$1\" = \"remove\" ] && [ -d /run/systemd/system ]; then
\tsystemctl --system daemon-reload > /dev/null || true
fi
";

pub const POSTRM_SYSV: &'static str = "if [ \"$1\" = \"purge\" ]; then
\tupdate-rc.d '{{ package_name }}' remove > /dev/null || true
fi
";

pub const PRERM_SYSTEMD_RESTART: &'static str = "if [ -d /run/systemd/system ] && [ \"$1\" = \"remove\" ]; then
\tdeb-systemd-invoke stop '{{ package_name }}.service' > /dev/null || true
fi
";

pub const PRERM_SYSV: &'static str = "if ! [ -d /run/systemd/system ] && [ \"$1\" = \"remove\" ] && [ -x '/etc/init.d/{{ package_name }}' ]; then
\tinvoke-rc.d '{{ package_name }}' stop || true
fi
";

pub const PRERM_UPSTART: &'static str = "if ! [ -d /run/systemd/system ] && [ \"$1\" = \"remove\" ] && [ -e '/etc/init/{{ package_name }}.conf' ]; then
\tinitctl stop '{{ package_name }}' || true
fi
";

} // verus!
