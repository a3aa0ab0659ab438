use crate::model::{tables_view, Model, Tables};
use std::collections::BTreeMap;
use vstd::prelude::*;

verus! {

#[verifier::external_type_specification]
#[verifier::external_body]
pub struct ExJsonError(serde_json::Error);

/// The weight table that a JSON text decodes to: an object of objects of
/// 32-bit integers, families and values each in ascending order of their
/// text; nothing where the text is no such object.
pub uninterp spec fn decoded_tables(text: Seq<char>) -> Option<Tables>;

/// Why a text was not taken as a weight table.
#[derive(Debug)]
pub enum ModelError {
    /// The text is not a JSON object of objects of 32-bit integers.
    Json(serde_json::Error),
}

/// Calls `serde_json::from_str` for an ordered map of ordered maps and lays
/// the maps out as vectors. The contract only names what the decoder
/// returns for a given text: it succeeds exactly where that is a table, and
/// then hands out that table.
#[verifier::external_body]
fn decode_tables(text: &str) -> (r: Result<Vec<(String, Vec<(String, i32)>)>, serde_json::Error>)
    ensures
        match r {
            Ok(tables) => decoded_tables(text@) == Some(tables_view(tables@)),
            Err(_) => decoded_tables(text@).is_none(),
        },
{
    let maps: BTreeMap<String, BTreeMap<String, i32>> = serde_json::from_str(text)?;
    Ok(maps.into_iter().map(|(tag, entries)| (tag, entries.into_iter().collect())).collect())
}

impl Model {
    /// Reads a model from JSON text: an object that maps each family tag to
    /// an object from feature value to weight.
    pub fn from_str(text: &str) -> (r: Result<Model, ModelError>)
        ensures
            match r {
                Ok(model) => decoded_tables(text@) == Some(model@),
                Err(_) => decoded_tables(text@).is_none(),
            },
    {
        match decode_tables(text) {
            Ok(tables) => Ok(Model::new(tables)),
            Err(e) => Err(ModelError::Json(e)),
        }
    }
}

} // verus!
