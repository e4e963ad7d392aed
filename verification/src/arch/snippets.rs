//! The fragments an Arch `.INSTALL` file is composed from.

use vstd::prelude::*;

verus! {

pub const ACCOUNT: &'static str = "\tgetent group '{{ group }}' > /dev/null || groupadd --system '{{ group }}' || :
\tgetent passwd '{{ user }}' > /dev/null || useradd --system --no-create-home --home-dir /nonexistent --shell /usr/bin/nologin --gid '{{ group }}' '{{ user }}' || :
";

pub const LOGDIR: &'static str = "\tif [ ! -d '/var/log/{{ package_name }}' ]; then
\t\tinstall -d -m 0755 -o '{{ user }}' -g '{{ group }}' '/var/log/{{ package_name }}' || :
\tfi
";

pub const NPM_INSTALL: &'static str = "\tif command -v {{ install_binary }} > /dev/null; then
\t\t( cd '{{ install_dir }}/{{ package_name }}/app' && {{ install_command }} ) || :
\tfi
";

pub const SYSTEMD_RELOAD: &'static str = "\tif [ -d /run/systemd/system ]; then
\t\tsystemctl daemon-reload > /dev/null 2>&1 || :
\tfi
";

pub const SYSTEMD_ENABLE: &'static str = "\tsystemctl --no-reload preset '{{ package_name }}.service' > /dev/null 2>&1 || :
";

pub const SYSTEMD_RESTART: &'static str = "\tif [ -d /run/systemd/system ]; then
\t\tsystemctl try-restart '{{ package_name }}.service' > /dev/null 2>&1 || :
\tfi
";

pub const SYSTEMD_START: &'static str = "\tif [ -d /run/systemd/system ]; then
\t\tsystemctl start '{{ package_name }}.service' > /dev/null 2>&1 || :
\tfi
";

pub const SYSTEMD_STOP: &'static str = "\tif [ -d /run/systemd/system ]; then
\t\tsystemctl stop '{{ package_name }}.service' > /dev/null 2>&1 || :
\tfi
\tsystemctl disable '{{ package_name }}.service' > /dev/null 2>&1 || :
";

pub const PURGE: &'static str = "\trm -rf '/var/log/{{ package_name }}' || :
\tuserdel '{{ user }}' > /dev/null 2>&1 || :
\tgroupdel '{{ group }}' > /dev/null 2>&1 || :
";

} // verus!
