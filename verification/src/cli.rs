//! The runtime container: the parsed invocation, the configuration and
//! the loaded collection, with the dispatch of one command per run.
//!
//! Loading the files, rendering output and writing the collection back
//! are the caller's part; the container decides what the command does and
//! whether the collection must be persisted afterwards.

use vstd::prelude::*;
use crate::{Error, Output};
use crate::config::{self, Config, ConfigArgs, config_command_post};
use crate::project::{self, ProjectArgs, ProjectData, data_wf, spec_mutating, project_command_post};

verus! {

/// The parsed command line: one namespace holding one subcommand.
pub struct Cli {
    pub namespace: Namespace,
}

/// The two command namespaces.
pub enum Namespace {
    Project(ProjectArgs),
    Config(ConfigArgs),
}

/// Does the namespace actually carry a subcommand?
pub open spec fn ns_has_command(ns: Namespace) -> bool {
    match ns {
        Namespace::Project(a) => a.command is Some,
        Namespace::Config(a) => a.command is Some,
    }
}

/// Does the carried command mutate the collection when it succeeds?
pub open spec fn ns_mutating(ns: Namespace) -> bool {
    match ns {
        Namespace::Project(a) => match a.command {
            Some(c) => spec_mutating(c),
            None => false,
        },
        Namespace::Config(_) => false,
    }
}

/// Everything one invocation works on.
pub struct RuntimeConfig {
    pub namespace: Namespace,
    pub config: Config,
    pub projects_data: ProjectData,
}

impl RuntimeConfig {
    /// Is the container fit to run: the collection well-formed and a
    /// subcommand present?
    pub open spec fn wf(self) -> bool {
        data_wf(self.projects_data@) && ns_has_command(self.namespace)
    }

    /// Execute one project-namespace command against the held collection.
    pub fn run_project_command(&mut self, args: &ProjectArgs) -> (r: Result<Output, Error>)
        requires
            data_wf(old(self).projects_data@),
            args.command is Some,
        ensures
            data_wf(final(self).projects_data@),
            final(self).config@ == old(self).config@,
            final(self).namespace == old(self).namespace,
            args.command matches Some(cmd) ==> project_command_post(
                old(self).projects_data@,
                final(self).projects_data@,
                cmd,
                r,
            ),
    {
        match &args.command {
            Some(cmd) => project::run_command(&mut self.projects_data, cmd),
            None => {
                proof {
                    assert(false);
                }
                Err(Error::PersistenceFailure)
            },
        }
    }

    /// Execute one config-namespace command against the held configuration.
    pub fn run_config_command(&mut self, args: &ConfigArgs) -> (r: Result<Output, Error>)
        requires
            args.command is Some,
        ensures
            final(self).config@ == old(self).config@,
            final(self).namespace == old(self).namespace,
            final(self).projects_data@ == old(self).projects_data@,
            args.command matches Some(cmd) ==> config_command_post(old(self).config@, cmd, r),
    {
        match &args.command {
            Some(cmd) => config::run_command(&self.config, cmd),
            None => {
                proof {
                    assert(false);
                }
                Err(Error::PersistenceFailure)
            },
        }
    }

    /// Dispatch the one command of this invocation.
    ///
    /// On success the output comes with a flag that says whether the
    /// collection must be persisted: exactly the successful mutating
    /// project commands set it. On failure the collection is untouched
    /// and nothing may be persisted. The configuration never changes,
    /// and the executed command is owed the same outcome as running it
    /// directly.
    pub fn run(&mut self) -> (r: Result<(Output, bool), Error>)
        requires
            old(self).wf(),
        ensures
            data_wf(final(self).projects_data@),
            final(self).config@ == old(self).config@,
            final(self).namespace == old(self).namespace,
            r is Err ==> final(self).projects_data@ == old(self).projects_data@,
            r matches Ok(p) ==> p.1 == ns_mutating(old(self).namespace),
            !ns_mutating(old(self).namespace) ==> final(self).projects_data@ == old(self).projects_data@,
            old(self).namespace matches Namespace::Project(args)
                ==> (args.command matches Some(cmd) ==> project_command_post(
                    old(self).projects_data@,
                    final(self).projects_data@,
                    cmd,
                    (match r {
                        Ok(p) => Ok::<Output, Error>(p.0),
                        Err(e) => Err::<Output, Error>(e),
                    }),
                )),
            old(self).namespace matches Namespace::Config(args)
                ==> (args.command matches Some(cmd) ==> config_command_post(
                    old(self).config@,
                    cmd,
                    (match r {
                        Ok(p) => Ok::<Output, Error>(p.0),
                        Err(e) => Err::<Output, Error>(e),
                    }),
                )),
    {
        match &self.namespace {
            Namespace::Project(args) => {
                match &args.command {
                    Some(cmd) => {
                        let mutating = project::is_mutating(cmd);
                        match project::run_command(&mut self.projects_data, cmd) {
                            Ok(out) => Ok((out, mutating)),
                            Err(e) => Err(e),
                        }
                    },
                    None => {
                        proof {
                            assert(false);
                        }
                        Err(Error::PersistenceFailure)
                    },
                }
            },
            Namespace::Config(args) => {
                match &args.command {
                    Some(cmd) => {
                        match config::run_command(&self.config, cmd) {
                            Ok(out) => Ok((out, false)),
                            Err(e) => Err(e),
                        }
                    },
                    None => {
                        proof {
                            assert(false);
                        }
                        Err(Error::PersistenceFailure)
                    },
                }
            },
        }
    }
}

} // verus!
