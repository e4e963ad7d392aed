//! The fragments RPM scriptlets are composed from.
//!
//! The systemd ones are `%systemd_post`, `%systemd_preun` and `%systemd_postun_with_restart`
//! written out. RPM aborts a transaction when a scriptlet fails, so every call ends `|| :`.

use vstd::prelude::*;

verus! {

pub const PRE_ACCOUNT: &'static str = "# The account exists before files owned by it are unpacked.
if [ \"$1\" -eq 1 ]; then
\tgetent group '{{ group }}' > /dev/null || groupadd --system '{{ group }}' || :
\tgetent passwd '{{ user }}' > /dev/null || useradd --system --no-create-home --home-dir /nonexistent --shell /sbin/nologin --gid '{{ group }}' '{{ user }}' || :
fi
";

pub const POST_LOGDIR: &'static str = "# The directory the service logs to.
if [ ! -d '/var/log/{{ package_name }}' ]; then
\tinstall -d -m 0755 -o '{{ user }}' -g '{{ group }}' '/var/log/{{ package_name }}' || :
fi
";

pub const POST_NPM_INSTALL: &'static str = "# Dependencies, installed on this machine.
if command -v {{ install_binary }} > /dev/null; then
\t( cd '{{ install_dir }}/{{ package_name }}/app' && {{ install_command }} ) || :
fi
";

pub const POST_SYSTEMD: &'static str = "# Beyond %systemd_post, the unit is started on a first install.
if [ -d /run/systemd/system ]; then
\tsystemctl daemon-reload > /dev/null 2>&1 || :
fi
if [ \"$1\" -eq 1 ]; then
\tsystemctl preset '{{ package_name }}.service' > /dev/null 2>&1 || :
\tsystemctl start '{{ package_name }}.service' > /dev/null 2>&1 || :
fi
";

pub const PREUN_SYSTEMD: &'static str = "if [ \"$1\" -eq 0 ]; then
\tsystemctl --no-reload disable --now '{{ package_name }}.service' > /dev/null 2>&1 || :
fi
";

pub const POSTUN_SYSTEMD: &'static str = "systemctl daemon-reload > /dev/null 2>&1 || :
if [ \"$1\" -ge 1 ]; then
\tsystemctl try-restart '{{ package_name }}.service' > /dev/null 2>&1 || :
fi
";

pub const POSTUN_PURGE: &'static str = "# The last copy of the package is gone, so what it created goes too.
if [ \"$1\" -eq 0 ]; then
\trm -rf '/var/log/{{ package_name }}' || :
\tuserdel '{{ user }}' > /dev/null 2>&1 || :
\tgroupdel '{{ group }}' > /dev/null 2>&1 || :
fi
";

pub const POST_SYSV: &'static str = "# Acted on only where systemd does not supervise the service.
if [ ! -d /run/systemd/system ] && [ -x '/etc/init.d/{{ package_name }}' ]; then
\tchkconfig --add '{{ package_name }}' > /dev/null 2>&1 || :
\tif [ \"$1\" -eq 1 ]; then
\t\tservice '{{ package_name }}' start > /dev/null 2>&1 || :
\telse
\t\tservice '{{ package_name }}' restart > /dev/null 2>&1 || :
\tfi
fi
";

pub const PREUN_SYSV: &'static str = "if [ \"$1\" -eq 0 ] && [ ! -d /run/systemd/system ] && [ -x '/etc/init.d/{{ package_name }}' ]; then
\tservice '{{ package_name }}' stop > /dev/null 2>&1 || :
\tchkconfig --del '{{ package_name }}' > /dev/null 2>&1 || :
fi
";

} // verus!
