//! The text of the built-in templates.

use vstd::prelude::*;

verus! {

/// `/etc/default/<name>`: what an administrator may set for the service.
pub const DEFAULT: &'static str = "# Defaults for {{ package_name }}, read by its service.
# Generated by nativepkg {{ generator_version }}

# Extra arguments handed to the service.
DAEMON_ARGS=\"\"
";

/// The wrapper a `/usr/bin` link points at.
pub const EXECUTABLE: &'static str = "#!/bin/sh
# Generated by nativepkg {{ generator_version }}
exec {{ install_dir }}/{{ package_name }}/app/{{ cli_entrypoint }} \"$@\"
";

pub const SYSTEMD_SERVICE: &'static str = "# Generated by nativepkg {{ generator_version }}
[Unit]
Description={{ package_description }}
After=network-online.target
Wants=network-online.target

[Service]
Type=simple
User={{ user }}
Group={{ group }}
WorkingDirectory={{ install_dir }}/{{ package_name }}/app
EnvironmentFile=-/etc/default/{{ package_name }}
ExecStart={{ install_dir }}/{{ package_name }}/app/{{ daemon_entrypoint }} $DAEMON_ARGS
Restart=always
RestartSec=5
NoNewPrivileges=yes
PrivateTmp=yes
ProtectHome=yes
ProtectSystem=strict
ReadWritePaths=/var/log/{{ package_name }}

[Install]
WantedBy=multi-user.target
";

pub const SYSV_INIT: &'static str = "#!/bin/sh
# Generated by nativepkg {{ generator_version }}
### BEGIN INIT INFO
# Provides:          {{ package_name }}
# Required-Start:    $local_fs $network $remote_fs $syslog
# Required-Stop:     $local_fs $network $remote_fs $syslog
# Default-Start:     2 3 4 5
# Default-Stop:      0 1 6
# Short-Description: {{ package_name }}
### END INIT INFO

NAME=\"{{ package_name }}\"
DESCRIPTION=\"{{ package_description_shell }}\"
RUN_AS=\"{{ user }}:{{ group }}\"
APP_DIR=\"{{ install_dir }}/{{ package_name }}/app\"
DAEMON=\"$APP_DIR/{{ daemon_entrypoint }}\"
PIDFILE=\"/var/run/$NAME.pid\"
LOGFILE=\"/var/log/$NAME/$NAME.log\"
DAEMON_ARGS=\"\"

[ -x \"$DAEMON\" ] || exit 0
[ -r \"/etc/default/$NAME\" ] && . \"/etc/default/$NAME\"
. /lib/lsb/init-functions

start_service() {
\tstart-stop-daemon --start --quiet --background --make-pidfile --pidfile \"$PIDFILE\" \\
\t\t--chuid \"$RUN_AS\" --chdir \"$APP_DIR\" --startas /bin/sh -- \\
\t\t-c \"exec $DAEMON $DAEMON_ARGS >> $LOGFILE 2>&1\"
}

stop_service() {
\tstart-stop-daemon --stop --quiet --oknodo --retry=TERM/30/KILL/5 --pidfile \"$PIDFILE\"
\trm -f \"$PIDFILE\"
}

case \"$1\" in
\tstart)
\t\tlog_daemon_msg \"Starting $DESCRIPTION\" \"$NAME\"
\t\tstart_service
\t\tlog_end_msg $?
\t\t;;
\tstop)
\t\tlog_daemon_msg \"Stopping $DESCRIPTION\" \"$NAME\"
\t\tstop_service
\t\tlog_end_msg $?
\t\t;;
\trestart|force-reload)
\t\tlog_daemon_msg \"Restarting $DESCRIPTION\" \"$NAME\"
\t\tstop_service
\t\tstart_service
\t\tlog_end_msg $?
\t\t;;
\tstatus)
\t\tstatus_of_proc -p \"$PIDFILE\" \"$DAEMON\" \"$NAME\"
\t\t;;
\t*)
\t\techo \"Usage: /etc/init.d/$NAME {start|stop|restart|force-reload|status}\" >&2
\t\texit 3
\t\t;;
esac
";

pub const UPSTART_CONF: &'static str = "# Generated by nativepkg {{ generator_version }}
description \"{{ package_description_shell }}\"
author \"{{ package_maintainer_shell }}\"

start on (local-filesystems and net-device-up IFACE!=lo)
stop on runlevel [016]

respawn
respawn limit 10 5

setuid {{ user }}
setgid {{ group }}
chdir {{ install_dir }}/{{ package_name }}/app

script
\tDAEMON_ARGS=\"\"
\t[ -r /etc/default/{{ package_name }} ] && . /etc/default/{{ package_name }}
\texec {{ install_dir }}/{{ package_name }}/app/{{ daemon_entrypoint }} $DAEMON_ARGS
end script
";

/// The log directory, declared so it is recreated at boot if missing.
pub const TMPFILES_CONF: &'static str = "# Generated by nativepkg {{ generator_version }}
d /var/log/{{ package_name }} 0755 {{ user }} {{ group }} -
";

} // verus!
