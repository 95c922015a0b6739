//! The words of the command line that stand for commands.

use vstd::prelude::*;

verus! {

/// What can be done with a set of apex points.
#[derive(Clone, Copy, PartialEq, Eq, Structural, Debug)]
pub enum ApexSetCommand {
    Create,
    Delete,
    List,
}

/// The command that the arguments ask for: their first word decides, and
/// the error says what is wrong where it names no command.
pub open spec fn command_of(args: Seq<Seq<char>>) -> Result<ApexSetCommand, Seq<char>> {
    if args.len() == 0 {
        Err("apexSet: expected command"@)
    } else if args[0] == "create"@ {
        Ok(ApexSetCommand::Create)
    } else if args[0] == "delete"@ {
        Ok(ApexSetCommand::Delete)
    } else if args[0] == "list"@ {
        Ok(ApexSetCommand::List)
    } else {
        Err("apexSet: Unknown command '"@ + args[0] + "'"@)
    }
}

/// The texts of the arguments.
pub open spec fn texts(args: Seq<String>) -> Seq<Seq<char>> {
    Seq::new(args.len(), |i: int| args[i]@)
}

/// The command that the arguments ask for.
pub fn parse_command(args: &[String]) -> (parsed: Result<ApexSetCommand, String>)
    ensures
        match parsed {
            Ok(command) => command_of(texts(args@)) == Ok::<ApexSetCommand, Seq<char>>(command),
            Err(message) => command_of(texts(args@)) == Err::<ApexSetCommand, Seq<char>>(
                message@,
            ),
        },
{
    if args.len() == 0 {
        return Err(String::from_str("apexSet: expected command"));
    }
    let command = &args[0];
    assert(texts(args@)[0] == command@);
    if *command == String::from_str("create") {
        Ok(ApexSetCommand::Create)
    } else if *command == String::from_str("delete") {
        Ok(ApexSetCommand::Delete)
    } else if *command == String::from_str("list") {
        Ok(ApexSetCommand::List)
    } else {
        Err(String::from_str("apexSet: Unknown command '").concat(command.as_str()).concat("'"))
    }
}

/// What a set of apex points is created with. What is left out is filled in
/// by the command.
pub struct CreateArgs {
    pub name: Option<String>,
    pub grid_density: Option<u32>,
    pub count: Option<u32>,
}

impl CreateArgs {
    /// The settings that the arguments ask for. As yet they ask for nothing:
    /// every set is the test set of a hundred points, on a grid as fine as
    /// the density of a thousand million makes it.
    #[allow(unused_variables)]
    pub fn parse(args: &[String]) -> (settings: CreateArgs)
        ensures
            settings.name matches Some(name) && name@ == "testSet"@,
            settings.grid_density == Some(1000000000u32),
            settings.count == Some(100u32),
    {
        CreateArgs {
            name: Some(String::from_str("testSet")),
            grid_density: Some(1000000000),
            count: Some(100),
        }
    }
}

} // verus!
