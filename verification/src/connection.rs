//! Connections that run the commands: their configurations, their validation, and what the
//! SSH connection sends to the remote shell.

use vstd::prelude::*;

use crate::attribute_path::{AttributePath, StepView};
use crate::diagnostics::{
    error_report, errors_of, lemma_reported_error, lemma_reported_none, one_more_error, reported,
    Diagnostics, Report,
};
use crate::schema::{plain_attribute, plain_entry, Attribute, AttributeConstraint, AttributeType};
use crate::value::{utf8_error_text, utf8_text, value_str_view, Value};

verus! {

/// Result of the execution of a command
#[derive(Debug)]
pub struct ExecutionResult {
    pub status: i32,
    pub stdout: String,
    pub stderr: String,
}

/// Connection that runs the commands on the local machine
#[derive(Debug, Default, Clone, Copy)]
pub struct ConnectionLocal {}

/// Configuration of a local connection: there is nothing to configure
#[derive(Debug, Default, Clone, Copy)]
pub struct ConnectionLocalConfig {}

/// Configuration of an SSH connection
#[derive(Debug)]
pub struct ConnectionSshConfig {
    pub host: Value<String>,
    pub port: Value<u16>,
    pub user: Value<String>,
    pub password: Value<String>,
    pub key: Value<String>,
    pub keyfile: Value<String>,
}

impl Default for ConnectionSshConfig {
    /// Every field null
    fn default() -> (r: Self)
        ensures
            r.host is Null && r.port is Null && r.user is Null && r.password is Null && r.key is Null
                && r.keyfile is Null,
    {
        ConnectionSshConfig {
            host: Value::Null,
            port: Value::Null,
            user: Value::Null,
            password: Value::Null,
            key: Value::Null,
            keyfile: Value::Null,
        }
    }
}

/// How an SSH connection authenticates
#[derive(Debug)]
pub enum SshAuth {
    /// With the private key given inline, and the password as its passphrase
    Key { key: String, passphrase: Option<String> },
    /// With the private key read from a file, and the password as its passphrase
    KeyFile { path: String, passphrase: Option<String> },
    /// With the password
    Password(String),
    /// With no credential
    NoCredential,
}

/// What an SSH connection does, from its configuration
#[derive(Debug)]
pub struct SshPlan {
    pub host: String,
    pub port: u16,
    pub user: String,
    pub auth: SshAuth,
}

/// An empty password means no password
pub open spec fn password_of(password: Value<String>) -> Option<Seq<char>> {
    if value_str_view(password).len() == 0 {
        None
    } else {
        Some(value_str_view(password))
    }
}

/// The characters of an optional string
pub open spec fn opt_view(s: Option<String>) -> Option<Seq<char>> {
    match s {
        Some(t) => Some(t@),
        None => None,
    }
}

impl ConnectionSshConfig {
    /// Validate the configuration at `attr_path`: the host must be given and not empty.
    /// Returns `None` iff an error was reported.
    pub fn validate(&self, diags: &mut Diagnostics, attr_path: AttributePath) -> (r: Option<()>)
        ensures
            match self.host {
                Value::Value(h) => if h@.len() == 0 {
                    r is None && one_more_error(
                        old(diags)@,
                        final(diags)@,
                        "`hostname` cannot be empty"@,
                        Seq::empty(),
                        attr_path@.push(StepView::Attribute("host"@)),
                    )
                } else {
                    r is Some && final(diags)@ == old(diags)@
                },
                Value::Null => r is None && one_more_error(
                    old(diags)@,
                    final(diags)@,
                    "`hostname` cannot be null"@,
                    Seq::empty(),
                    attr_path@.push(StepView::Attribute("host"@)),
                ),
                Value::Unknown => r is Some && final(diags)@ == old(diags)@,
            },
    {
        match &self.host {
            Value::Value(host) => {
                if host.as_str().is_empty() {
                    diags.error_short("`hostname` cannot be empty", attr_path.attribute("host"));
                    return None;
                }
            },
            Value::Null => {
                diags.error_short("`hostname` cannot be null", attr_path.attribute("host"));
                return None;
            },
            Value::Unknown => {},
        }
        Some(())
    }

    /// Decide how to connect: port 22 when none (or 0) is given, user `root` when none is
    /// given, the password as passphrase or as credential when it is not empty, and the key
    /// inline or from a file. Giving both a key and a key file is an error.
    pub fn plan(&self) -> (r: Result<SshPlan, String>)
        ensures
            (self.key is Value && self.keyfile is Value) <==> r is Err,
            r matches Err(msg) ==> msg@ == "Both private key and private key file were given"@,
            r matches Ok(p) ==> {
                &&& p.host@ == value_str_view(self.host)
                &&& p.port == (match self.port {
                    Value::Value(port) => if port == 0 {
                        22
                    } else {
                        port
                    },
                    _ => 22,
                })
                &&& p.user@ == if value_str_view(self.user).len() == 0 {
                    "root"@
                } else {
                    value_str_view(self.user)
                }
                &&& match (self.key, self.keyfile) {
                    (Value::Value(k), _) => p.auth matches SshAuth::Key { key, passphrase } && key@
                        == k@ && opt_view(passphrase) == password_of(self.password),
                    (_, Value::Value(f)) => p.auth matches SshAuth::KeyFile { path, passphrase }
                        && path@ == f@ && opt_view(passphrase) == password_of(self.password),
                    _ => match password_of(self.password) {
                        Some(pw) => p.auth matches SshAuth::Password(x) && x@ == pw,
                        None => p.auth is NoCredential,
                    },
                }
            },
    {
        let host = self.host.as_str().to_owned();
        let port = match self.port {
            Value::Value(port) => if port == 0 {
                22
            } else {
                port
            },
            _ => 22,
        };
        let password_text = self.password.as_str();
        let password = if password_text.is_empty() {
            None
        } else {
            Some(password_text.to_owned())
        };
        let user_text = self.user.as_str();
        let user = if user_text.is_empty() {
            proof {
                reveal_strlit("root");
            }
            "root".to_owned()
        } else {
            user_text.to_owned()
        };
        let auth = match (&self.key, &self.keyfile) {
            (Value::Value(_), Value::Value(_)) => {
                return Err("Both private key and private key file were given".to_owned());
            },
            (Value::Value(key), _) => SshAuth::Key { key: key.clone(), passphrase: password },
            (_, Value::Value(keyfile)) => SshAuth::KeyFile {
                path: keyfile.clone(),
                passphrase: password,
            },
            _ => match password {
                Some(pw) => SshAuth::Password(pw),
                None => SshAuth::NoCredential,
            },
        };
        Ok(SshPlan { host, port, user, auth })
    }
}

/// The configuration of a connection, which validates itself
pub trait ConnectionConfig: Sized {
    /// What the validation of the configuration at `path` reports
    spec fn validation_reports(&self, path: Seq<StepView>) -> Seq<Report>;

    /// Validate the configuration at `attr_path`, reporting [`Self::validation_reports`];
    /// `None` iff an error is among them
    fn validate_at(&self, diags: &mut Diagnostics, attr_path: AttributePath) -> (r: Option<()>)
        ensures
            reported(old(diags)@, final(diags)@, self.validation_reports(attr_path@)),
            r is None <==> errors_of(self.validation_reports(attr_path@)).len() > 0,
    ;
}

impl ConnectionConfig for ConnectionLocalConfig {
    /// There is nothing to validate
    open spec fn validation_reports(&self, path: Seq<StepView>) -> Seq<Report> {
        Seq::empty()
    }

    fn validate_at(&self, diags: &mut Diagnostics, attr_path: AttributePath) -> (r: Option<()>) {
        proof {
            lemma_reported_none(diags@);
        }
        Some(())
    }
}

/// What the validation of an SSH configuration at `path` reports: an error when the host is
/// null or empty
pub open spec fn ssh_validation_reports(host: Value<String>, path: Seq<StepView>) -> Seq<Report> {
    match host {
        Value::Value(h) => if h@.len() == 0 {
            seq![error_report("`hostname` cannot be empty"@, Seq::empty(), path.push(StepView::Attribute("host"@)))]
        } else {
            Seq::empty()
        },
        Value::Null => seq![error_report("`hostname` cannot be null"@, Seq::empty(), path.push(StepView::Attribute("host"@)))],
        Value::Unknown => Seq::empty(),
    }
}

impl ConnectionConfig for ConnectionSshConfig {
    open spec fn validation_reports(&self, path: Seq<StepView>) -> Seq<Report> {
        ssh_validation_reports(self.host, path)
    }

    fn validate_at(&self, diags: &mut Diagnostics, attr_path: AttributePath) -> (r: Option<()>) {
        let ghost start = diags@;
        let ghost path = attr_path@;
        let r = self.validate(diags, attr_path);
        proof {
            let reports = ssh_validation_reports(self.host, path);
            if reports.len() == 0 {
                assert(diags@ == start);
                lemma_reported_none(start);
            } else {
                lemma_reported_error(start, diags@, reports[0].summary, Seq::empty(), path.push(StepView::Attribute("host"@)));
                assert(reports =~= seq![error_report(reports[0].summary, Seq::empty(), path.push(StepView::Attribute("host"@)))]);
                reveal_with_fuel(errors_of, 2);
            }
        }
        r
    }
}

/// What the validation of the connection of a resource reports: that of its configuration at
/// `connect[0]`, when it is known
pub open spec fn connect_reports<C: ConnectionConfig>(connect: Value<C>) -> Seq<Report> {
    match connect {
        Value::Value(c) => c.validation_reports(
            seq![StepView::Attribute("connect"@), StepView::Index(0)],
        ),
        _ => Seq::empty(),
    }
}

/// Validate the connection of a resource at `connect[0]`, when it is known
pub(crate) fn validate_connect<C: ConnectionConfig>(diags: &mut Diagnostics, connect: &Value<C>)
    ensures
        reported(old(diags)@, final(diags)@, connect_reports(*connect)),
{
    if let Value::Value(c) = connect {
        let at = AttributePath::new("connect").index(0);
        assert(at@ =~= seq![StepView::Attribute("connect"@), StepView::Index(0)]);
        let _ = c.validate_at(diags, at);
    } else {
        proof {
            lemma_reported_none(diags@);
        }
    }
}

/// What the SSH channel of a running command reports
#[derive(Debug)]
pub enum ChannelEvent {
    /// Bytes written on the standard output
    Data(Vec<u8>),
    /// Bytes written on the standard error
    ExtendedData(Vec<u8>),
    /// The exit status of the command
    ExitStatus(u32),
    /// The command was stopped by a signal: the name of the signal, and the message
    ExitSignal { signal_name: String, error_message: String },
    /// Any other message
    Other,
    /// The channel closed
    Closed,
}

/// What a command that runs over SSH has given so far
#[derive(Debug)]
pub struct ChannelState {
    pub stdout: Vec<u8>,
    pub stderr: Vec<u8>,
    pub status: Option<i32>,
}

/// What the command does after an event of its channel: it goes on, or it is done
#[derive(Debug)]
pub enum ChannelStep {
    Continue(ChannelState),
    Done(Result<ExecutionResult, String>),
}

/// The result of a command whose channel closed: without an exit status, an error; else
/// the status with the standard output and error, which must be UTF-8 (the first that is
/// not gives the error)
pub open spec fn closed_result(state: ChannelState, r: Result<ExecutionResult, String>) -> bool {
    match state.status {
        None => r matches Err(e) && e@ == "channel closed without exit code"@,
        Some(status) => if !vstd::utf8::valid_utf8(state.stdout@) {
            r matches Err(e) && e@ == utf8_error_text(state.stdout@)
        } else if !vstd::utf8::valid_utf8(state.stderr@) {
            r matches Err(e) && e@ == utf8_error_text(state.stderr@)
        } else {
            r matches Ok(res) && res.status == status && res.stdout@ == vstd::utf8::decode_utf8(
                state.stdout@,
            ) && res.stderr@ == vstd::utf8::decode_utf8(state.stderr@)
        },
    }
}

/// Take an event of the channel of a command that runs over SSH: output and error bytes are
/// appended, the exit status is kept (as a signed number), other messages change nothing; a
/// signal ends the command with an error, and the closing of the channel with its result
/// (see [`closed_result`])
pub fn channel_step(state: ChannelState, event: ChannelEvent) -> (r: ChannelStep)
    ensures
        match event {
            ChannelEvent::Data(d) => r matches ChannelStep::Continue(s) && s.stdout@ == state.stdout@ + d@
                && s.stderr@ == state.stderr@ && s.status == state.status,
            ChannelEvent::ExtendedData(d) => r matches ChannelStep::Continue(s) && s.stdout@
                == state.stdout@ && s.stderr@ == state.stderr@ + d@ && s.status == state.status,
            ChannelEvent::ExitStatus(code) => r matches ChannelStep::Continue(s) && s.stdout@
                == state.stdout@ && s.stderr@ == state.stderr@ && s.status == Some(code as i32),
            ChannelEvent::ExitSignal { signal_name, error_message } => r matches ChannelStep::Done(
                Err(e),
            ) && e@ == "Exit signal received "@ + signal_name@ + ": "@ + error_message@,
            ChannelEvent::Other => r matches ChannelStep::Continue(s) && s.stdout@ == state.stdout@
                && s.stderr@ == state.stderr@ && s.status == state.status,
            ChannelEvent::Closed => r matches ChannelStep::Done(res) && closed_result(state, res),
        },
{
    let mut state = state;
    match event {
        ChannelEvent::Data(d) => {
            let mut d = d;
            state.stdout.append(&mut d);
            ChannelStep::Continue(state)
        },
        ChannelEvent::ExtendedData(d) => {
            let mut d = d;
            state.stderr.append(&mut d);
            ChannelStep::Continue(state)
        },
        ChannelEvent::ExitStatus(code) => {
            state.status = Some(code as i32);
            ChannelStep::Continue(state)
        },
        ChannelEvent::ExitSignal { signal_name, error_message } => {
            let message = String::from_str("Exit signal received ").concat(signal_name.as_str()).concat(
                ": ",
            ).concat(error_message.as_str());
            ChannelStep::Done(Err(message))
        },
        ChannelEvent::Other => ChannelStep::Continue(state),
        ChannelEvent::Closed => match state.status {
            None => ChannelStep::Done(Err(String::from_str("channel closed without exit code"))),
            Some(status) => {
                let stdout = match utf8_text(state.stdout.as_slice()) {
                    Ok(text) => text,
                    Err(e) => {
                        return ChannelStep::Done(Err(e));
                    },
                };
                let stderr = match utf8_text(state.stderr.as_slice()) {
                    Ok(text) => text,
                    Err(e) => {
                        return ChannelStep::Done(Err(e));
                    },
                };
                ChannelStep::Done(Ok(ExecutionResult { status, stdout, stderr }))
            },
        },
    }
}

/// Text of the script that the SSH connection feeds to `/bin/sh` on the remote host: a helper
/// that reads its standard input into `value`, the change of working directory, the export
/// of each variable, then the command run by `bash`. Values, directory and command are passed
/// as here-documents, so that they are never interpreted by the shell.
pub open spec fn ssh_script(cmd: Seq<char>, dir: Seq<char>, env: Seq<(Seq<char>, Seq<char>)>) -> Seq<char> {
    ssh_prelude() + ssh_dir_part(dir) + ssh_env_part(env) + ssh_cmd_part(cmd)
}

/// Helper that reads its standard input into `value`
pub open spec fn ssh_prelude() -> Seq<char> {
    "newline='\n'\nread_stdin() {\nvalue=\nwhile IFS= read -r line; do\nvalue=\"$value$line$newline\"\ndone\nvalue=\"$value$line\"\n}\n"@
}

/// Change of working directory (kept when the directory is empty)
pub open spec fn ssh_dir_part(dir: Seq<char>) -> Seq<char> {
    "read_stdin << '__!@#$END_OF_WORKDIR$#@!__'\n"@ + dir
        + "\n__!@#$END_OF_WORKDIR$#@!__\nvalue=\"${value%%?}\"\n[ -z \"$value\" ] || cd \"$value\"\n"@
}

/// Export of one variable
pub open spec fn ssh_var_part(name: Seq<char>, value: Seq<char>) -> Seq<char> {
    "read_stdin << '__!@#$END_OF_VARIABLE$#@!__'\n"@ + value + "\n__!@#$END_OF_VARIABLE$#@!__\nexport "@
        + name + "=\"${value%%?}\"\n"@
}

/// Export of the variables, in order
pub open spec fn ssh_env_part(env: Seq<(Seq<char>, Seq<char>)>) -> Seq<char>
    decreases env.len(),
{
    if env.len() == 0 {
        Seq::empty()
    } else {
        ssh_env_part(env.drop_last()) + ssh_var_part(env.last().0, env.last().1)
    }
}

/// The command, run by `bash`
pub open spec fn ssh_cmd_part(cmd: Seq<char>) -> Seq<char> {
    "exec /usr/bin/env bash << '__!@#$END_OF_SCRIPT$#@!__'\n"@ + cmd + "\n__!@#$END_OF_SCRIPT$#@!__\n"@
}

/// Build the script that runs `cmd` in `dir` with the variables `env` on the remote host
pub fn ssh_script_text(cmd: &str, dir: &str, env: &Vec<(String, String)>) -> (r: String)
    ensures
        r@ == ssh_script(cmd@, dir@, env@.map_values(|p: (String, String)| (p.0@, p.1@))),
{
    let ghost ev = env@.map_values(|p: (String, String)| (p.0@, p.1@));
    proof {
        reveal_strlit("newline='\n'\nread_stdin() {\nvalue=\nwhile IFS= read -r line; do\nvalue=\"$value$line$newline\"\ndone\nvalue=\"$value$line\"\n}\n");
        reveal_strlit("read_stdin << '__!@#$END_OF_WORKDIR$#@!__'\n");
        reveal_strlit("\n__!@#$END_OF_WORKDIR$#@!__\nvalue=\"${value%%?}\"\n[ -z \"$value\" ] || cd \"$value\"\n");
    }
    let mut script = String::from_str(
        "newline='\n'\nread_stdin() {\nvalue=\nwhile IFS= read -r line; do\nvalue=\"$value$line$newline\"\ndone\nvalue=\"$value$line\"\n}\n",
    );
    script = script.concat("read_stdin << '__!@#$END_OF_WORKDIR$#@!__'\n").concat(dir).concat(
        "\n__!@#$END_OF_WORKDIR$#@!__\nvalue=\"${value%%?}\"\n[ -z \"$value\" ] || cd \"$value\"\n",
    );
    let ghost head = script@;
    assert(head == ssh_prelude() + ssh_dir_part(dir@));
    let n = env.len();
    for i in 0..n
        invariant
            n == env@.len(),
            ev == env@.map_values(|p: (String, String)| (p.0@, p.1@)),
            script@ == head + ssh_env_part(ev.take(i as int)),
    {
        let (name, value) = &env[i];
        proof {
            reveal_strlit("read_stdin << '__!@#$END_OF_VARIABLE$#@!__'\n");
            reveal_strlit("\n__!@#$END_OF_VARIABLE$#@!__\nexport ");
            reveal_strlit("=\"${value%%?}\"\n");
            let t = ev.take(i as int + 1);
            assert(t.drop_last() =~= ev.take(i as int));
            assert(t.last() == (name@, value@));
        }
        let ghost before = script@;
        script = script.concat("read_stdin << '__!@#$END_OF_VARIABLE$#@!__'\n").concat(
            value.as_str(),
        ).concat("\n__!@#$END_OF_VARIABLE$#@!__\nexport ").concat(name.as_str()).concat(
            "=\"${value%%?}\"\n",
        );
        assert(script@ =~= before + ssh_var_part(name@, value@));
    }
    assert(ev.take(n as int) =~= ev);
    proof {
        reveal_strlit("exec /usr/bin/env bash << '__!@#$END_OF_SCRIPT$#@!__'\n");
        reveal_strlit("\n__!@#$END_OF_SCRIPT$#@!__\n");
    }
    let ghost before = script@;
    script = script.concat("exec /usr/bin/env bash << '__!@#$END_OF_SCRIPT$#@!__'\n").concat(
        cmd,
    ).concat("\n__!@#$END_OF_SCRIPT$#@!__\n");
    assert(script@ =~= before + ssh_cmd_part(cmd@));
    script
}

impl ConnectionSshConfig {
    /// An owned configuration with the same content
    pub fn extend(self) -> (r: ConnectionSshConfig)
        ensures
            r == self,
    {
        ConnectionSshConfig {
            host: self.host.extend(),
            port: self.port,
            user: self.user.extend(),
            password: self.password.extend(),
            key: self.key.extend(),
            keyfile: self.keyfile.extend(),
        }
    }

    /// The attributes of the configuration of an SSH connection: the host (required), the
    /// port, the user, the password (or passphrase), the key and the file of the key
    pub fn schema() -> (r: Vec<(String, Attribute)>)
        ensures
            r@.len() == 6,
            plain_attribute(r@[0], "host"@, AttributeType::String, "Hostname to connect to"@, AttributeConstraint::Required, false),
            plain_attribute(r@[1], "port"@, AttributeType::Number, "Port to connect to"@, AttributeConstraint::Optional, false),
            plain_attribute(r@[2], "user"@, AttributeType::String, "User to connect with"@, AttributeConstraint::Optional, false),
            plain_attribute(r@[3], "password"@, AttributeType::String, "Password or passphrase"@, AttributeConstraint::Optional, false),
            plain_attribute(r@[4], "key"@, AttributeType::String, "Key"@, AttributeConstraint::Optional, false),
            plain_attribute(r@[5], "keyfile"@, AttributeType::String, "Filename of the key"@, AttributeConstraint::Optional, false),
    {
        let mut a: Vec<(String, Attribute)> = Vec::new();
        a.push(plain_entry("host", AttributeType::String, "Hostname to connect to", AttributeConstraint::Required, false));
        a.push(plain_entry("port", AttributeType::Number, "Port to connect to", AttributeConstraint::Optional, false));
        a.push(plain_entry("user", AttributeType::String, "User to connect with", AttributeConstraint::Optional, false));
        a.push(plain_entry("password", AttributeType::String, "Password or passphrase", AttributeConstraint::Optional, false));
        a.push(plain_entry("key", AttributeType::String, "Key", AttributeConstraint::Optional, false));
        a.push(plain_entry("keyfile", AttributeType::String, "Filename of the key", AttributeConstraint::Optional, false));
        a
    }
}

impl ConnectionLocalConfig {
    /// The attributes of the configuration of a local connection: none
    pub fn schema() -> (r: Vec<(String, Attribute)>)
        ensures
            r@.len() == 0,
    {
        Vec::new()
    }
}

} // verus!
