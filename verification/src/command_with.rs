//! Projecting records onto a chosen set of fields.

use vstd::prelude::*;
use crate::json::Json;
use crate::json::JsonV;
use crate::json::json_map_view;
use crate::message::FieldName;
use crate::message::Message;
use crate::message::spec_field_key;
use crate::message::spec_field_value;
use crate::message::spec_fv_json;

verus! {

/// Rewrites each record as an object holding just the chosen fields,
/// a missing field appearing as `null`.
#[derive(Debug)]
pub struct WithCommand {
    pub fields: Vec<FieldName>,
}

/// What one chosen field contributes to the projection.
pub open spec fn spec_projected_value(m: Message, f: FieldName) -> JsonV {
    match spec_field_value(m, f) {
        Some(v) => spec_fv_json(v),
        None => JsonV::Null,
    }
}

/// The projection of a record onto a list of fields, in the given order.
pub open spec fn spec_projection(fields: Seq<FieldName>, m: Message) -> Seq<(Seq<char>, JsonV)> {
    Seq::new(fields.len(), |i: int| (spec_field_key(fields[i]), spec_projected_value(m, fields[i])))
}

impl WithCommand {
    /// The record as an object of this command's fields.
    #[verifier::loop_isolation(false)]
    pub fn project(&self, m: &Message) -> (r: Vec<(String, Json)>)
        ensures
            json_map_view(r@) == spec_projection(self.fields@, *m),
    {
        let mut out: Vec<(String, Json)> = Vec::new();
        let n = self.fields.len();
        let mut i: usize = 0;
        while i < n
            invariant
                i <= n,
                n == self.fields@.len(),
                out@.len() == i,
                forall|k: int| 0 <= k < i ==> ((#[trigger] out@[k]).0@ == spec_field_key(
                    self.fields@[k],
                ) && crate::json::json_view(out@[k].1) == spec_projected_value(
                    *m,
                    self.fields@[k],
                )),
            decreases n - i,
        {
            let f = self.fields[i];
            let key = f.key();
            let val = match m.get_field_value(f) {
                Some(v) => v.to_json_value(),
                None => Json::Null,
            };
            out.push((key, val));
            i = i + 1;
        }
        proof {
            crate::json::lemma_json_map_view(out@);
            assert(json_map_view(out@) =~= spec_projection(self.fields@, *m));
        }
        out
    }
}

} // verus!
