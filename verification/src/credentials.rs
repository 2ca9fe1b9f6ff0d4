//! Where the credentials come from: the command line, the environment, or a
//! CSV file, in that order.

use crate::signing::{Credentials, CredentialsView};
use crate::text::{option_text, texts_of};
use vstd::prelude::*;

verus! {

/// Declares `csv::Error`, the error of a record that cannot be read. Nothing
/// is known of what it holds.
#[verifier::external_type_specification]
#[verifier::external_body]
pub struct ExCsvError(csv::Error);

/// Why no credentials were found.
#[derive(Debug, Clone, Copy, PartialEq, Eq, Structural)]
pub enum CredentialsError {
    /// Neither the command line nor the environment holds both keys, and
    /// there is no CSV file.
    NoFile,
    /// The CSV file holds no record behind its header.
    NoRecords,
    /// The first record of the CSV file cannot be read.
    BadRecord,
    /// The first record has no second column.
    MissingAk,
    /// The first record has no third column.
    MissingSk,
}

/// The first record behind the header of the CSV text `contents`, as the
/// `csv` crate reads it: `None` where there is none, `Some(None)` where it
/// cannot be read, else its fields.
pub uninterp spec fn csv_first_record(contents: Seq<u8>) -> Option<Option<Seq<Seq<char>>>>;

/// Calls `Reader::from_reader`, `records` and `next`.
///
/// Trusted: the record is the one named `csv_first_record`.
#[verifier::external_body]
pub(crate) fn first_record(contents: &[u8]) -> (r: Option<Result<Vec<String>, csv::Error>>)
    ensures
        match r {
            None => csv_first_record(contents@) is None,
            Some(Err(_)) => csv_first_record(contents@) == Some(None::<Seq<Seq<char>>>),
            Some(Ok(fields)) => csv_first_record(contents@) == Some(Some(texts_of(fields@))),
        },
{
    let mut reader = csv::Reader::from_reader(contents);
    let record = reader.records().next()?;
    Some(record.map(|fields| fields.iter().map(String::from).collect()))
}

/// The credentials in the fields of a record: the access key in its second
/// column, the secret key in its third.
pub open spec fn credentials_in_fields(fields: Seq<Seq<char>>) -> Result<
    CredentialsView,
    CredentialsError,
> {
    if fields.len() < 2 {
        Err(CredentialsError::MissingAk)
    } else if fields.len() < 3 {
        Err(CredentialsError::MissingSk)
    } else {
        Ok(CredentialsView { ak: fields[1], sk: fields[2] })
    }
}

/// The credentials in the first record of a file.
pub open spec fn credentials_in(record: Option<Option<Seq<Seq<char>>>>) -> Result<
    CredentialsView,
    CredentialsError,
> {
    match record {
        None => Err(CredentialsError::NoRecords),
        Some(None) => Err(CredentialsError::BadRecord),
        Some(Some(fields)) => credentials_in_fields(fields),
    }
}

/// The result of a search for credentials, by its mathematical value.
pub open spec fn found(r: Result<Credentials, CredentialsError>) -> Result<
    CredentialsView,
    CredentialsError,
> {
    match r {
        Ok(c) => Ok(c@),
        Err(e) => Err(e),
    }
}

/// Takes the credentials from the fields of a record.
pub fn credentials_from_fields(fields: &Vec<String>) -> (r: Result<Credentials, CredentialsError>)
    ensures
        found(r) == credentials_in_fields(texts_of(fields@)),
{
    if fields.len() < 2 {
        Err(CredentialsError::MissingAk)
    } else if fields.len() < 3 {
        Err(CredentialsError::MissingSk)
    } else {
        Ok(Credentials { ak: fields[1].clone(), sk: fields[2].clone() })
    }
}

/// Reads the credentials from the contents of a CSV file: from its first
/// record behind the header.
pub fn read_credentials_csv(contents: &[u8]) -> (r: Result<Credentials, CredentialsError>)
    ensures
        found(r) == credentials_in(csv_first_record(contents@)),
{
    match first_record(contents) {
        None => Err(CredentialsError::NoRecords),
        Some(Err(_)) => Err(CredentialsError::BadRecord),
        Some(Ok(fields)) => credentials_from_fields(&fields),
    }
}

/// The bytes of an optional vector.
pub open spec fn bytes_of(b: Option<Vec<u8>>) -> Option<Seq<u8>> {
    match b {
        Some(b) => Some(b@),
        None => None,
    }
}

/// The credentials that are used: those of the command line where both keys
/// are given there; else those of the environment where both are set; else
/// those of the CSV file.
pub open spec fn chosen_credentials(
    cli_ak: Option<Seq<char>>,
    cli_sk: Option<Seq<char>>,
    env_ak: Option<Seq<char>>,
    env_sk: Option<Seq<char>>,
    csv_file: Option<Seq<u8>>,
) -> Result<CredentialsView, CredentialsError> {
    if cli_ak is Some && cli_sk is Some {
        Ok(CredentialsView { ak: cli_ak->0, sk: cli_sk->0 })
    } else if env_ak is Some && env_sk is Some {
        Ok(CredentialsView { ak: env_ak->0, sk: env_sk->0 })
    } else {
        match csv_file {
            Some(contents) => credentials_in(csv_first_record(contents)),
            None => Err(CredentialsError::NoFile),
        }
    }
}

/// Whether the CSV file is looked at: only where neither the command line nor
/// the environment holds both keys.
pub open spec fn csv_file_is_needed(
    cli_ak: Option<Seq<char>>,
    cli_sk: Option<Seq<char>>,
    env_ak: Option<Seq<char>>,
    env_sk: Option<Seq<char>>,
) -> bool {
    !(cli_ak is Some && cli_sk is Some) && !(env_ak is Some && env_sk is Some)
}

/// Tells whether the CSV file has to be read to choose the credentials.
pub fn needs_csv_file(
    cli_ak: &Option<String>,
    cli_sk: &Option<String>,
    env_ak: &Option<String>,
    env_sk: &Option<String>,
) -> (r: bool)
    ensures
        r == csv_file_is_needed(
            option_text(*cli_ak),
            option_text(*cli_sk),
            option_text(*env_ak),
            option_text(*env_sk),
        ),
{
    !(cli_ak.is_some() && cli_sk.is_some()) && !(env_ak.is_some() && env_sk.is_some())
}

/// Where the CSV file is not needed, what it holds changes nothing of the
/// credentials that are chosen.
pub proof fn lemma_csv_file_unused(
    cli_ak: Option<Seq<char>>,
    cli_sk: Option<Seq<char>>,
    env_ak: Option<Seq<char>>,
    env_sk: Option<Seq<char>>,
    first_file: Option<Seq<u8>>,
    second_file: Option<Seq<u8>>,
)
    requires
        !csv_file_is_needed(cli_ak, cli_sk, env_ak, env_sk),
    ensures
        chosen_credentials(cli_ak, cli_sk, env_ak, env_sk, first_file) == chosen_credentials(
            cli_ak,
            cli_sk,
            env_ak,
            env_sk,
            second_file,
        ),
{
}

/// Chooses the credentials among the three places where they can stand.
///
/// `env_ak` and `env_sk` are the values of the two environment variables,
/// `csv_file` the contents of the CSV file, each `None` where there is none.
pub fn get_credentials(
    cli_ak: Option<String>,
    cli_sk: Option<String>,
    env_ak: Option<String>,
    env_sk: Option<String>,
    csv_file: Option<Vec<u8>>,
) -> (r: Result<Credentials, CredentialsError>)
    ensures
        found(r) == chosen_credentials(
            option_text(cli_ak),
            option_text(cli_sk),
            option_text(env_ak),
            option_text(env_sk),
            bytes_of(csv_file),
        ),
{
    match (cli_ak, cli_sk) {
        (Some(ak), Some(sk)) => {
            return Ok(Credentials { ak, sk });
        },
        _ => {},
    }
    match (env_ak, env_sk) {
        (Some(ak), Some(sk)) => {
            return Ok(Credentials { ak, sk });
        },
        _ => {},
    }
    match csv_file {
        Some(contents) => read_credentials_csv(contents.as_slice()),
        None => Err(CredentialsError::NoFile),
    }
}

} // verus!
