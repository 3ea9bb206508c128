use vstd::prelude::*;

use crate::inventory::{Group, Inventory, Target};
use crate::plan::ExecutableTask;

verus! {

/// A transport-level failure.  It is returned to the caller; nothing in
/// the core terminates the process.
pub enum TransportError {
    GeneralError(String),
}

/// The capability contract a remote transport implements.  SSH is the
/// only variant today; the orchestrator and parser do not depend on
/// which one is in use.
pub trait Transport {
    fn connect(&mut self, target: &Target) -> bool;

    fn disconnect(&mut self);

    fn file_exists(&self, path: &String) -> Result<bool, TransportError>;

    fn run(&mut self, command: &ExecutableTask, target: &Target, dry_run: bool) -> i32;

    fn run_script(&mut self, script: &String) -> i32;

    fn run_group(
        &mut self,
        cmd: &ExecutableTask,
        group: &Group,
        inv: &Inventory,
        dry_run: bool,
    ) -> i32;

    fn send_bytes(&self, remote_path: &String, bytes: &Vec<u8>, mode: i32) -> bool;
}

/// How a connection authenticates.
pub enum AuthMethod {
    Password { user: String, password: String },
    PublicKey { user: String, keypath: String },
    Agent,
}

/// The credential decision for a target, in precedence order: a
/// configured password first, else a configured private key, else the
/// local authentication agent.  SSH settings that name neither
/// credential are a configuration error — the connection attempt fails
/// instead of silently falling through.
pub fn auth_method(target: &Target) -> (r: Result<AuthMethod, TransportError>)
    ensures
        match r {
            Ok(m) => match m {
                AuthMethod::Password { user, password } => target.config is Some
                    && target.config->0.ssh is Some && target.config->0.ssh->0.password == Some(
                    password,
                ) && user == target.config->0.ssh->0.user,
                AuthMethod::PublicKey { user, keypath } => target.config is Some
                    && target.config->0.ssh is Some && target.config->0.ssh->0.password is None
                    && target.config->0.ssh->0.privatekey_path == Some(keypath) && user
                    == target.config->0.ssh->0.user,
                AuthMethod::Agent => !(target.config is Some && target.config->0.ssh is Some),
            },
            Err(_) => target.config is Some && target.config->0.ssh is Some
                && target.config->0.ssh->0.password is None
                && target.config->0.ssh->0.privatekey_path is None,
        },
{
    match &target.config {
        Some(config) => {
            match &config.ssh {
                Some(ssh) => {
                    match &ssh.password {
                        Some(password) => Ok(
                            AuthMethod::Password {
                                user: ssh.user.clone(),
                                password: password.clone(),
                            },
                        ),
                        None => {
                            match &ssh.privatekey_path {
                                Some(keypath) => Ok(
                                    AuthMethod::PublicKey {
                                        user: ssh.user.clone(),
                                        keypath: keypath.clone(),
                                    },
                                ),
                                None => Err(
                                    TransportError::GeneralError(
                                        String::from_str(
                                            "ssh settings need a password or a private key path",
                                        ),
                                    ),
                                ),
                            }
                        },
                    }
                },
                None => Ok(AuthMethod::Agent),
            }
        },
        None => Ok(AuthMethod::Agent),
    }
}

} // verus!
