//! Where sockets and firmware are.

use vstd::prelude::*;

use crate::proto;

verus! {

/// A directory the system tells of, below which a path is.
#[derive(Clone, Copy, Debug, PartialEq, Eq, Structural)]
pub enum Base {
    /// None: the path is whole.
    Root,
    /// That of the sockets of the user, `XDG_RUNTIME_DIR`.
    RuntimeDir,
    /// That of the data of the user, `XDG_DATA_HOME`.
    DataHome,
    /// That of the user.
    Home,
    /// That of the data of the programs, `ProgramData`.
    ProgramData,
}

/// A path, which joining it to the path of its base gives.
#[derive(Clone, Copy, Debug, PartialEq, Eq)]
pub struct Place {
    pub base: Base,
    pub below: &'static str,
}

/// What [`user_socket`] gives.
pub open spec fn socket_of_user() -> Place {
    Place { base: Base::RuntimeDir, below: "tunelith/tunelithd.sock" }
}

/// The socket of a tunelithd run for the user.
pub fn user_socket() -> (r: Place)
    ensures
        r == socket_of_user(),
{
    Place { base: Base::RuntimeDir, below: "tunelith/tunelithd.sock" }
}

/// Where to find tunelithd: the socket of one run for the user, if there is one, or
/// else [`DEFAULT_SOCKET`](proto::DEFAULT_SOCKET), that of the system. `runtime_dir`
/// is whether the directory of the user's sockets is known, and `there` whether the
/// user's socket is.
pub fn default_socket(runtime_dir: bool, there: bool) -> (r: Place)
    ensures
        r == if runtime_dir && there {
            socket_of_user()
        } else {
            Place { base: Base::Root, below: proto::DEFAULT_SOCKET }
        },
{
    if runtime_dir && there {
        return user_socket();
    }
    Place { base: Base::Root, below: proto::DEFAULT_SOCKET }
}

/// Which of its directories the system tells of.
#[derive(Clone, Copy, Debug, PartialEq, Eq, Structural)]
pub enum Places {
    Windows { program_data: bool },
    Unix { data_home: bool, home: bool },
}

/// The directories the firmware may be in.
pub open spec fn searched(places: Places) -> Seq<Place> {
    match places {
        Places::Windows { program_data } => if program_data {
            seq![Place { base: Base::ProgramData, below: "tunelith\\firmware" }]
        } else {
            Seq::empty()
        },
        Places::Unix { data_home, home } => seq![
            Place { base: Base::Root, below: "/lib/firmware" },
        ] + if data_home {
            seq![Place { base: Base::DataHome, below: "tunelith/firmware" }]
        } else if home {
            seq![Place { base: Base::Home, below: ".local/share/tunelith/firmware" }]
        } else {
            Seq::empty()
        },
    }
}

/// The directories the firmware is looked for in, in order.
pub fn firmware_dirs(places: Places) -> (r: Vec<Place>)
    ensures
        r@ == searched(places),
{
    let mut dirs: Vec<Place> = Vec::new();
    match places {
        Places::Windows { program_data } => {
            if program_data {
                dirs.push(Place { base: Base::ProgramData, below: "tunelith\\firmware" });
            }
        },
        Places::Unix { data_home, home } => {
            dirs.push(Place { base: Base::Root, below: "/lib/firmware" });
            if data_home {
                dirs.push(Place { base: Base::DataHome, below: "tunelith/firmware" });
            } else if home {
                dirs.push(Place { base: Base::Home, below: ".local/share/tunelith/firmware" });
            }
        },
    }
    assert(dirs@ =~= searched(places));
    dirs
}

} // verus!
