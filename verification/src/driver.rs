//! The driver: the whole script for a description file and a list of
//! target declarations.

use vstd::prelude::*;
use crate::ast::{Decl, DeclDesc, File};
use crate::dissect::{protocol_head, write_protocol_head};
use crate::dissector_info::DeclDissectorInfo;
use crate::error::ErrorKind;
use crate::len_info::names_view;
use crate::lower::lowered_as;
use crate::rules::model_of;
use crate::text::lemma_after_nothing;

verus! {

/// Declares `std::path::PathBuf`, so that arguments can hold the path of
/// the description file. Trusted: the type is opaque here, and nothing is
/// claimed of its values.
#[verifier::external_type_specification]
#[verifier::external_body]
pub struct ExPathBuf(std::path::PathBuf);

/// Command line arguments for this tool.
#[derive(Debug)]
pub struct Args {
    /// The description file to generate the dissector from.
    pub pdl_file: std::path::PathBuf,
    /// The declarations of the description file to register as protocols.
    /// A description file can declare many packets; these names say for
    /// which of them a protocol is registered. The name `_all_` stands for
    /// every packet.
    pub target_packets: Vec<String>,
}

/// The text that stands for one declaration: the registration of its
/// fields, then its dissection function.
#[verifier::opaque]
pub open spec fn decl_block(file: File, decl: Decl) -> Result<Seq<char>, ErrorKind> {
    match model_of(file, decl) {
        Ok(model) => Ok(model.proto_fields_text() + model.dissect_text()),
        Err(e) => Err(e),
    }
}

/// The blocks of the first `n` declarations of `file`, in file order. The
/// first declaration that cannot be lowered decides the error.
pub open spec fn decl_blocks(file: File, n: nat) -> Result<Seq<char>, ErrorKind>
    decreases n,
{
    if n == 0 || n > file.declarations@.len() {
        Ok(Seq::empty())
    } else {
        match decl_blocks(file, (n - 1) as nat) {
            Err(e) => Err(e),
            Ok(text) => match decl_block(file, file.declarations@[n - 1]) {
                Err(e) => Err(e),
                Ok(block) => Ok(text + block),
            },
        }
    }
}

/// The registration of `decl` as the protocol `name`. Only a sequence can
/// be a protocol.
#[verifier::opaque]
pub open spec fn registration(file: File, name: Seq<char>, decl: Decl) -> Result<
    Seq<char>,
    ErrorKind,
> {
    match model_of(file, decl) {
        Ok(model) => if model is Sequence {
            Ok(protocol_head(name) + model.main_dissector_text())
        } else {
            Err(ErrorKind::UnsupportedConstruct)
        },
        Err(e) => Err(e),
    }
}

/// The registrations of the packets among the first `n` declarations of
/// `file`, in file order.
pub open spec fn packet_registrations(file: File, n: nat) -> Result<Seq<char>, ErrorKind>
    decreases n,
{
    if n == 0 || n > file.declarations@.len() {
        Ok(Seq::empty())
    } else {
        match packet_registrations(file, (n - 1) as nat) {
            Err(e) => Err(e),
            Ok(text) => {
                let decl = file.declarations@[n - 1];
                if decl.desc is Packet {
                    match registration(file, decl.name()->0, decl) {
                        Err(e) => Err(e),
                        Ok(block) => Ok(text + block),
                    }
                } else {
                    Ok(text)
                }
            },
        }
    }
}

/// The registrations that the target name `target` asks for: those of all
/// packets for `_all_`, else that of the declaration of that name. A name
/// that nothing is declared under is bad input.
pub open spec fn target_registration(file: File, target: Seq<char>) -> Result<Seq<char>, ErrorKind> {
    if target == "_all_"@ {
        packet_registrations(file, file.declarations@.len())
    } else {
        match file.typedef_of(target) {
            Some(decl) => registration(file, target, decl),
            None => Err(ErrorKind::BadInput),
        }
    }
}

/// The text for one target: the blocks of all declarations, then the
/// registrations the target asks for.
pub open spec fn target_text(file: File, target: Seq<char>) -> Result<Seq<char>, ErrorKind> {
    match decl_blocks(file, file.declarations@.len()) {
        Err(e) => Err(e),
        Ok(blocks) => match target_registration(file, target) {
            Err(e) => Err(e),
            Ok(registrations) => Ok(blocks + registrations),
        },
    }
}

/// The texts for the first `n` of `targets`, in order.
pub open spec fn targets_text(file: File, targets: Seq<Seq<char>>, n: nat) -> Result<
    Seq<char>,
    ErrorKind,
>
    decreases n,
{
    if n == 0 || n > targets.len() {
        Ok(Seq::empty())
    } else {
        match targets_text(file, targets, (n - 1) as nat) {
            Err(e) => Err(e),
            Ok(text) => match target_text(file, targets[n - 1]) {
                Err(e) => Err(e),
                Ok(block) => Ok(text + block),
            },
        }
    }
}

/// The script for `file` and `targets`: the prelude, then the text for
/// each target in order. No target at all is bad input.
pub open spec fn run_text(file: File, targets: Seq<Seq<char>>, prelude: Seq<char>) -> Result<
    Seq<char>,
    ErrorKind,
> {
    if targets.len() == 0 {
        Err(ErrorKind::BadInput)
    } else {
        match targets_text(file, targets, targets.len()) {
            Err(e) => Err(e),
            Ok(text) => Ok(prelude + text),
        }
    }
}

/// Once a declaration has failed, the blocks of more declarations fail in
/// the same way.
pub proof fn lemma_blocks_error_sticks(file: File, n: nat, m: nat)
    requires
        n <= m <= file.declarations@.len(),
        decl_blocks(file, n) is Err,
    ensures
        decl_blocks(file, m) == decl_blocks(file, n),
    decreases m,
{
    if m > n {
        lemma_blocks_error_sticks(file, n, (m - 1) as nat);
    }
}

/// Once a packet has failed, the registrations of more packets fail in
/// the same way.
pub proof fn lemma_registrations_error_sticks(file: File, n: nat, m: nat)
    requires
        n <= m <= file.declarations@.len(),
        packet_registrations(file, n) is Err,
    ensures
        packet_registrations(file, m) == packet_registrations(file, n),
    decreases m,
{
    if m > n {
        lemma_registrations_error_sticks(file, n, (m - 1) as nat);
    }
}

/// Once a target has failed, the texts of more targets fail in the same
/// way.
pub proof fn lemma_targets_error_sticks(file: File, targets: Seq<Seq<char>>, n: nat, m: nat)
    requires
        n <= m <= targets.len(),
        targets_text(file, targets, n) is Err,
    ensures
        targets_text(file, targets, m) == targets_text(file, targets, n),
    decreases m,
{
    if m > n {
        lemma_targets_error_sticks(file, targets, n, (m - 1) as nat);
    }
}

/// Writes the registration of `decl` as the protocol `decl_name`. On an
/// error nothing is written.
pub fn generate_for_decl(decl_name: &str, decl: &Decl, file: &File, writer: &mut String) -> (r:
    Result<(), ErrorKind>)
    ensures
        match registration(*file, decl_name@, *decl) {
            Ok(text) => r is Ok && final(writer)@ == old(writer)@ + text,
            Err(e) => r is Err && r->Err_0 == e && final(writer)@ == old(writer)@,
        },
{
    proof {
        reveal(registration);
    }
    let target_dissector_info = match decl.to_dissector_info(file) {
        Ok(info) => info,
        Err(e) => {
            return Err(e);
        },
    };
    match &target_dissector_info {
        DeclDissectorInfo::Sequence { .. } => {
            let mut s = String::new();
            write_protocol_head(&mut s, decl_name);
            target_dissector_info.write_main_dissector(&mut s);
            proof {
                lemma_after_nothing(protocol_head(decl_name@));
            }
            writer.append(s.as_str());
            Ok(())
        },
        _ => Err(ErrorKind::UnsupportedConstruct),
    }
}

/// The block of one declaration of `file`.
fn block_of(decl: &Decl, file: &File) -> (r: Result<String, ErrorKind>)
    ensures
        lowered_as(r, decl_block(*file, *decl)),
{
    proof {
        reveal(decl_block);
    }
    match decl.to_dissector_info(file) {
        Ok(info) => {
            let mut block = String::new();
            info.write_proto_fields(&mut block);
            info.write_dissect_fn(&mut block);
            proof {
                lemma_after_nothing(info@.proto_fields_text());
            }
            Ok(block)
        },
        Err(e) => Err(e),
    }
}

/// The blocks of all declarations of `file`.
fn all_blocks(file: &File) -> (r: Result<String, ErrorKind>)
    ensures
        lowered_as(r, decl_blocks(*file, file.declarations@.len())),
{
    let mut out = String::new();
    let mut i: usize = 0;
    while i < file.declarations.len()
        invariant
            i <= file.declarations.len(),
            decl_blocks(*file, i as nat) == Ok::<Seq<char>, ErrorKind>(out@),
        decreases file.declarations.len() - i,
    {
        match block_of(&file.declarations[i], file) {
            Ok(block) => {
                out.append(block.as_str());
            },
            Err(e) => {
                proof {
                    lemma_blocks_error_sticks(*file, (i + 1) as nat, file.declarations@.len());
                }
                return Err(e);
            },
        }
        i = i + 1;
    }
    Ok(out)
}

/// The registrations of all packets of `file`.
fn all_packets(file: &File) -> (r: Result<String, ErrorKind>)
    ensures
        lowered_as(r, packet_registrations(*file, file.declarations@.len())),
{
    let mut out = String::new();
    let mut i: usize = 0;
    while i < file.declarations.len()
        invariant
            i <= file.declarations.len(),
            packet_registrations(*file, i as nat) == Ok::<Seq<char>, ErrorKind>(out@),
        decreases file.declarations.len() - i,
    {
        let decl = &file.declarations[i];
        match &decl.desc {
            DeclDesc::Packet { id, .. } => {
                let mut block = String::new();
                match generate_for_decl(id.as_str(), decl, file, &mut block) {
                    Ok(()) => {
                        proof {
                            lemma_after_nothing(registration(*file, id@, *decl)->Ok_0);
                        }
                        out.append(block.as_str());
                    },
                    Err(e) => {
                        proof {
                            lemma_registrations_error_sticks(
                                *file,
                                (i + 1) as nat,
                                file.declarations@.len(),
                            );
                        }
                        return Err(e);
                    },
                }
            },
            _ => {},
        }
        i = i + 1;
    }
    Ok(out)
}

/// The text for one target.
fn one_target(file: &File, target: &String) -> (r: Result<String, ErrorKind>)
    ensures
        lowered_as(r, target_text(*file, target@)),
{
    let mut out = match all_blocks(file) {
        Ok(blocks) => blocks,
        Err(e) => {
            return Err(e);
        },
    };
    if *target == String::from_str("_all_") {
        match all_packets(file) {
            Ok(registrations) => {
                out.append(registrations.as_str());
                Ok(out)
            },
            Err(e) => Err(e),
        }
    } else {
        match file.typedef(target) {
            Some(decl) => {
                let mut block = String::new();
                match generate_for_decl(target.as_str(), decl, file, &mut block) {
                    Ok(()) => {
                        proof {
                            lemma_after_nothing(registration(*file, target@, *decl)->Ok_0);
                        }
                        out.append(block.as_str());
                        Ok(out)
                    },
                    Err(e) => Err(e),
                }
            },
            None => Err(ErrorKind::BadInput),
        }
    }
}

/// Generates the script for the analyzed description `file` and the
/// targets named in `args`: `prelude`, the run-time support the script
/// relies on, then for each target the blocks of all declarations of the
/// file and the registrations the target asks for.
pub fn run(args: &Args, file: &File, prelude: &str) -> (r: Result<String, ErrorKind>)
    ensures
        lowered_as(r, run_text(*file, names_view(args.target_packets@), prelude@)),
{
    let targets = &args.target_packets;
    if targets.len() == 0 {
        return Err(ErrorKind::BadInput);
    }
    let ghost names = names_view(targets@);
    let mut body = String::new();
    let mut i: usize = 0;
    while i < targets.len()
        invariant
            i <= targets.len(),
            targets.len() > 0,
            targets == &args.target_packets,
            names == names_view(targets@),
            names.len() == targets.len(),
            targets_text(*file, names, i as nat) == Ok::<Seq<char>, ErrorKind>(body@),
        decreases targets.len() - i,
    {
        assert(names[i as int] == targets[i as int]@);
        match one_target(file, &targets[i]) {
            Ok(text) => {
                body.append(text.as_str());
            },
            Err(e) => {
                proof {
                    lemma_targets_error_sticks(*file, names, (i + 1) as nat, names.len());
                }
                return Err(e);
            },
        }
        i = i + 1;
    }
    let mut out = String::from_str(prelude);
    out.append(body.as_str());
    Ok(out)
}

} // verus!
