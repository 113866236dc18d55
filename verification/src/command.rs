//! The command of a run: what the arguments given on the command line ask
//! for, with the defaults filled in and the number of worker threads held
//! within what the machine can serve.

use crate::path::{path_from, path_of};
use crate::unpack::Unpack;
use std::path::PathBuf;
use vstd::prelude::*;

verus! {

/// The command of a run.
#[allow(non_camel_case_types)]
#[derive(Clone, Debug, PartialEq, Eq)]
pub enum PDFCon {
    /// Take the images out of a document.
    UNPACK(Unpack),
}

/// The arguments of a run as they were given: what was left out is `None`.
#[derive(Clone, Debug, PartialEq, Eq)]
pub struct Arguments {
    /// The number of worker threads that was asked for.
    pub threads: Option<usize>,
    /// The directory that receives the images.
    pub out_directory: Option<PathBuf>,
    /// The document to read.
    pub in_file: PathBuf,
    /// Whether the encoder should spend time on smaller files.
    pub optimize: Option<bool>,
}

/// The number of worker threads for a request on a machine with the given
/// number of physical cores: the request, or half the cores where nothing
/// was asked for, held between one and twice the cores.
pub open spec fn threads_for(requested: Option<usize>, total_physical: usize) -> int {
    let wanted: int = match requested {
        Some(threads) => threads as int,
        None => total_physical as int / 2,
    };
    if wanted < 1 {
        1
    } else if wanted > 2 * total_physical {
        2 * total_physical
    } else {
        wanted
    }
}

/// The command that arguments ask for on a machine with the given number of
/// physical cores. Images go to `output/` where no directory is given, and
/// are not optimised where that is not asked for.
pub open spec fn command_of(arguments: Arguments, total_physical: usize) -> PDFCon {
    PDFCon::UNPACK(
        Unpack {
            threads: threads_for(arguments.threads, total_physical) as usize,
            out_directory: match arguments.out_directory {
                Some(path) => path,
                None => path_of("output/"@),
            },
            in_file: arguments.in_file,
            optimize: match arguments.optimize {
                Some(flag) => flag,
                None => false,
            },
        },
    )
}

/// The number of worker threads for a request. Whatever is asked for, zero
/// or more than any machine has, the result lies between one and twice the
/// number of physical cores.
pub fn worker_threads(requested: Option<usize>, total_physical: usize) -> (threads: usize)
    requires
        1 <= total_physical <= usize::MAX / 2,
    ensures
        threads == threads_for(requested, total_physical),
        1 <= threads <= 2 * total_physical,
{
    let wanted = match requested {
        Some(threads) => threads,
        None => total_physical / 2,
    };
    let most = total_physical * 2;
    if wanted < 1 {
        1
    } else if wanted > most {
        most
    } else {
        wanted
    }
}

/// The command that the arguments ask for, with the defaults filled in.
pub fn get_command(arguments: Arguments, total_physical: usize) -> (command: PDFCon)
    requires
        1 <= total_physical <= usize::MAX / 2,
    ensures
        command == command_of(arguments, total_physical),
{
    PDFCon::UNPACK(
        Unpack {
            threads: worker_threads(arguments.threads, total_physical),
            out_directory: match arguments.out_directory {
                Some(path) => path,
                None => path_from("output/"),
            },
            in_file: arguments.in_file,
            optimize: match arguments.optimize {
                Some(flag) => flag,
                None => false,
            },
        },
    )
}

} // verus!
