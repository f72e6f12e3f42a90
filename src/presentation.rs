use vstd::prelude::*;

use crate::json::{
    child, find_member, has_keys, is_str, is_str_array, member_at, render, render_items,
    render_json, render_member, render_members, string_array, texts, JsonValue,
};

verus! {

/// The part of a proof identifier that the mapping reads.
pub struct Identifier {
    pub cred_def_id: String,
}

/// The part of an anonymous-credential proof that the mapping reads.
pub struct Proof {
    pub identifiers: Vec<Identifier>,
}

/// The proof block of a presentation.
pub struct W3cProof {
    pub typ: String,
}

/// One credential derived from a proof.
pub struct DerivedCredential {
    pub context: Vec<String>,
    pub typ: Vec<String>,
}

/// A verifiable presentation built from a proof.
pub struct VerifiablePresentation {
    pub context: Vec<String>,
    pub typ: String,
    pub creds: Vec<DerivedCredential>,
    pub proof: W3cProof,
}

/// Why a proof could not be mapped.
#[derive(Debug, PartialEq, Eq, Structural)]
pub enum MappingError {
    /// The proof holds no identifier to take the credential definition from.
    NoIdentifiers,
}

pub open spec fn base_context() -> Seq<char> {
    "https://www.w3.org/2018/credentials/v1"@
}

pub open spec fn presentation_type() -> Seq<char> {
    "VerifiablePresentation"@
}

pub open spec fn credential_type() -> Seq<char> {
    "VerifiableCredential"@
}

pub open spec fn proof_type() -> Seq<char> {
    "AnonCredPresentationProofv1"@
}

pub open spec fn context_key() -> Seq<char> {
    "@context"@
}

pub open spec fn type_key() -> Seq<char> {
    "type"@
}

pub open spec fn credentials_key() -> Seq<char> {
    "verifiableCredential"@
}

pub open spec fn proof_key() -> Seq<char> {
    "proof"@
}

impl W3cProof {
    /// `v` is this proof block as a JSON object.
    pub open spec fn is_json(&self, v: JsonValue) -> bool {
        has_keys(v, seq![type_key()]) && is_str(member_at(v, 0), self.typ@)
    }

    pub fn to_json(&self) -> (r: JsonValue)
        ensures
            self.is_json(r),
    {
        let mut members: Vec<(String, JsonValue)> = Vec::new();
        members.push((String::from_str("type"), JsonValue::Str(self.typ.clone())));
        JsonValue::Object(members)
    }
}

impl DerivedCredential {
    /// `v` is this credential as a JSON object.
    pub open spec fn is_json(&self, v: JsonValue) -> bool {
        &&& has_keys(v, seq![context_key(), type_key()])
        &&& is_str_array(member_at(v, 0), texts(self.context@))
        &&& is_str_array(member_at(v, 1), texts(self.typ@))
    }

    pub fn to_json(&self) -> (r: JsonValue)
        ensures
            self.is_json(r),
    {
        let mut members: Vec<(String, JsonValue)> = Vec::new();
        members.push((String::from_str("@context"), string_array(&self.context)));
        members.push((String::from_str("type"), string_array(&self.typ)));
        JsonValue::Object(members)
    }
}

impl VerifiablePresentation {
    /// `v` is this presentation as a JSON object, under the wire names of its fields.
    pub open spec fn is_json(&self, v: JsonValue) -> bool {
        &&& has_keys(v, seq![context_key(), type_key(), credentials_key(), proof_key()])
        &&& is_str_array(member_at(v, 0), texts(self.context@))
        &&& is_str(member_at(v, 1), self.typ@)
        &&& member_at(v, 2) is Array
        &&& member_at(v, 2)->Array_0@.len() == self.creds@.len()
        &&& forall|i: int|
            0 <= i < self.creds@.len() ==> self.creds@[i].is_json(
                #[trigger] member_at(v, 2)->Array_0@[i],
            )
        &&& self.proof.is_json(member_at(v, 3))
    }

    /// This presentation is the one that a proof whose first credential definition is
    /// `cred_def_id` maps to: the base context then that identifier, the presentation
    /// type, exactly one derived credential with the base context and the credential
    /// type, and the anonymous-credential proof type.
    pub open spec fn maps(&self, cred_def_id: Seq<char>) -> bool {
        &&& texts(self.context@) == seq![base_context(), cred_def_id]
        &&& self.typ@ == presentation_type()
        &&& self.creds@.len() == 1
        &&& texts(self.creds@[0].context@) == seq![base_context()]
        &&& texts(self.creds@[0].typ@) == seq![credential_type()]
        &&& self.proof.typ@ == proof_type()
    }

    pub fn to_json(&self) -> (r: JsonValue)
        ensures
            self.is_json(r),
    {
        let mut creds: Vec<JsonValue> = Vec::new();
        let mut i: usize = 0;
        while i < self.creds.len()
            invariant
                i <= self.creds@.len(),
                creds@.len() == i,
                forall|j: int| 0 <= j < i ==> self.creds@[j].is_json(#[trigger] creds@[j]),
            decreases self.creds@.len() - i,
        {
            creds.push(self.creds[i].to_json());
            i += 1;
        }
        let mut members: Vec<(String, JsonValue)> = Vec::new();
        members.push((String::from_str("@context"), string_array(&self.context)));
        members.push((String::from_str("type"), JsonValue::Str(self.typ.clone())));
        members.push((String::from_str("verifiableCredential"), JsonValue::Array(creds)));
        members.push((String::from_str("proof"), self.proof.to_json()));
        JsonValue::Object(members)
    }
}

/// Builds the presentation of a proof from its first identifier's credential definition.
pub fn presentation_of(proof: &Proof) -> (r: VerifiablePresentation)
    requires
        proof.identifiers@.len() > 0,
    ensures
        r.maps(proof.identifiers@[0].cred_def_id@),
{
    let mut context: Vec<String> = Vec::new();
    context.push(String::from_str("https://www.w3.org/2018/credentials/v1"));
    context.push(proof.identifiers[0].cred_def_id.clone());
    let mut cred_context: Vec<String> = Vec::new();
    cred_context.push(String::from_str("https://www.w3.org/2018/credentials/v1"));
    let mut cred_type: Vec<String> = Vec::new();
    cred_type.push(String::from_str("VerifiableCredential"));
    let mut creds: Vec<DerivedCredential> = Vec::new();
    creds.push(DerivedCredential { context: cred_context, typ: cred_type });
    let r = VerifiablePresentation {
        context,
        typ: String::from_str("VerifiablePresentation"),
        creds,
        proof: W3cProof { typ: String::from_str("AnonCredPresentationProofv1") },
    };
    assert(texts(r.context@) =~= seq![base_context(), proof.identifiers@[0].cred_def_id@]);
    assert(texts(r.creds@[0].context@) =~= seq![base_context()]);
    assert(texts(r.creds@[0].typ@) =~= seq![credential_type()]);
    r
}

/// `doc` is the JSON document of the presentation of a proof whose first credential
/// definition is `cred_def_id`.
pub open spec fn is_presentation_doc(doc: JsonValue, cred_def_id: Seq<char>) -> bool {
    exists|vp: VerifiablePresentation| vp.maps(cred_def_id) && #[trigger] vp.is_json(doc)
}

/// Maps a proof to the compact JSON text of its verifiable presentation.
///
/// A proof without identifiers is refused with `NoIdentifiers`; every other proof maps.
pub fn to_vp(proof: &Proof) -> (r: Result<String, MappingError>)
    ensures
        match r {
            Ok(text) => proof.identifiers@.len() > 0 && exists|doc: JsonValue|
                is_presentation_doc(doc, proof.identifiers@[0].cred_def_id@) && text@ == render(
                    doc,
                ),
            Err(e) => proof.identifiers@.len() == 0 && e == MappingError::NoIdentifiers,
        },
{
    if proof.identifiers.len() == 0 {
        return Err(MappingError::NoIdentifiers);
    }
    let vp = presentation_of(proof);
    let doc = vp.to_json();
    let text = render_json(&doc);
    assert(is_presentation_doc(doc, proof.identifiers@[0].cred_def_id@));
    Ok(text)
}

proof fn lemma_items_render_alike(a: Seq<JsonValue>, b: Seq<JsonValue>)
    requires
        a.len() == b.len(),
        forall|i: int| 0 <= i < a.len() ==> render(#[trigger] a[i]) == render(b[i]),
    ensures
        render_items(a) == render_items(b),
    decreases a.len(),
{
    if a.len() > 1 {
        lemma_items_render_alike(a.subrange(0, a.len() - 1), b.subrange(0, b.len() - 1));
    }
}

proof fn lemma_members_render_alike(a: Seq<(String, JsonValue)>, b: Seq<(String, JsonValue)>)
    requires
        a.len() == b.len(),
        forall|i: int|
            0 <= i < a.len() ==> (#[trigger] a[i]).0@ == b[i].0@ && render(a[i].1) == render(
                b[i].1,
            ),
    ensures
        render_members(a) == render_members(b),
    decreases a.len(),
{
    if a.len() > 0 {
        assert(render_member(a[a.len() - 1]) == render_member(b[b.len() - 1]));
        assert(render_member(a[0]) == render_member(b[0]));
    }
    if a.len() > 1 {
        lemma_members_render_alike(a.subrange(0, a.len() - 1), b.subrange(0, b.len() - 1));
    }
}

proof fn lemma_str_arrays_render_alike(a: JsonValue, b: JsonValue, s: Seq<Seq<char>>)
    requires
        is_str_array(a, s),
        is_str_array(b, s),
    ensures
        render(a) == render(b),
{
    assert forall|i: int| 0 <= i < a->Array_0@.len() implies render(#[trigger] a->Array_0@[i])
        == render(b->Array_0@[i]) by {
        assert(is_str(a->Array_0@[i], s[i]));
        assert(is_str(b->Array_0@[i], s[i]));
    }
    lemma_items_render_alike(a->Array_0@, b->Array_0@);
}

proof fn lemma_objects_render_alike(a: JsonValue, b: JsonValue, keys: Seq<Seq<char>>)
    requires
        has_keys(a, keys),
        has_keys(b, keys),
        forall|i: int| 0 <= i < keys.len() ==> render(#[trigger] member_at(a, i)) == render(member_at(b, i)),
    ensures
        render(a) == render(b),
{
    assert forall|i: int| 0 <= i < a->Object_0@.len() implies (#[trigger] a->Object_0@[i]).0@
        == b->Object_0@[i].0@ && render(a->Object_0@[i].1) == render(b->Object_0@[i].1) by {
        assert(render(member_at(a, i)) == render(member_at(b, i)));
    }
    lemma_members_render_alike(a->Object_0@, b->Object_0@);
}

proof fn lemma_credentials_render_alike(a: DerivedCredential, da: JsonValue, b: DerivedCredential, db: JsonValue)
    requires
        a.is_json(da),
        b.is_json(db),
        texts(a.context@) == texts(b.context@),
        texts(a.typ@) == texts(b.typ@),
    ensures
        render(da) == render(db),
{
    let keys = seq![context_key(), type_key()];
    lemma_str_arrays_render_alike(member_at(da, 0), member_at(db, 0), texts(a.context@));
    lemma_str_arrays_render_alike(member_at(da, 1), member_at(db, 1), texts(a.typ@));
    assert forall|i: int| 0 <= i < keys.len() implies render(#[trigger] member_at(da, i)) == render(member_at(db, i)) by {
        if i == 0 {
        } else {
        }
    }
    lemma_objects_render_alike(da, db, keys);
}

/// The text of a presentation is determined by the credential definition it is built
/// from: two documents of the presentation of one credential definition have the
/// same text, so mapping one proof twice gives byte-identical output.
pub proof fn lemma_presentation_text_determined(d1: JsonValue, d2: JsonValue, cred_def_id: Seq<char>)
    requires
        is_presentation_doc(d1, cred_def_id),
        is_presentation_doc(d2, cred_def_id),
    ensures
        render(d1) == render(d2),
{
    let vp1 = choose|vp: VerifiablePresentation| vp.maps(cred_def_id) && #[trigger] vp.is_json(d1);
    let vp2 = choose|vp: VerifiablePresentation| vp.maps(cred_def_id) && #[trigger] vp.is_json(d2);
    let keys = seq![context_key(), type_key(), credentials_key(), proof_key()];
    lemma_str_arrays_render_alike(member_at(d1, 0), member_at(d2, 0), texts(vp1.context@));
    let c1 = member_at(d1, 2);
    let c2 = member_at(d2, 2);
    assert(vp1.creds@[0].is_json(c1->Array_0@[0]));
    assert(vp2.creds@[0].is_json(c2->Array_0@[0]));
    lemma_credentials_render_alike(vp1.creds@[0], c1->Array_0@[0], vp2.creds@[0], c2->Array_0@[0]);
    lemma_items_render_alike(c1->Array_0@, c2->Array_0@);
    let p1 = member_at(d1, 3);
    let p2 = member_at(d2, 3);
    assert(render(member_at(p1, 0)) == render(member_at(p2, 0)));
    lemma_objects_render_alike(p1, p2, seq![type_key()]);
    assert forall|i: int| 0 <= i < keys.len() implies render(#[trigger] member_at(d1, i)) == render(member_at(d2, i)) by {
        if i == 1 {
            assert(is_str(member_at(d1, 1), presentation_type()));
            assert(is_str(member_at(d2, 1), presentation_type()));
        }
    }
    lemma_objects_render_alike(d1, d2, keys);
}

/// Every output of `to_vp` on one proof is the same text.
pub proof fn lemma_to_vp_deterministic(proof: Proof, a: String, b: String)
    requires
        proof.identifiers@.len() > 0,
        exists|doc: JsonValue|
            is_presentation_doc(doc, proof.identifiers@[0].cred_def_id@) && a@ == render(doc),
        exists|doc: JsonValue|
            is_presentation_doc(doc, proof.identifiers@[0].cred_def_id@) && b@ == render(doc),
    ensures
        a@ == b@,
{
    let id = proof.identifiers@[0].cred_def_id@;
    let da = choose|doc: JsonValue| is_presentation_doc(doc, id) && a@ == render(doc);
    let db = choose|doc: JsonValue| is_presentation_doc(doc, id) && b@ == render(doc);
    lemma_presentation_text_determined(da, db, id);
}

proof fn lemma_presentation_children(doc: JsonValue, cred_def_id: Seq<char>)
    requires
        is_presentation_doc(doc, cred_def_id),
    ensures
        child(doc, context_key()) == Some(member_at(doc, 0)),
        child(doc, type_key()) == Some(member_at(doc, 1)),
        child(doc, credentials_key()) == Some(member_at(doc, 2)),
        child(doc, proof_key()) == Some(member_at(doc, 3)),
{
    reveal_strlit("@context");
    reveal_strlit("type");
    reveal_strlit("verifiableCredential");
    reveal_strlit("proof");
    let m = doc->Object_0@;
    assert(m[0].0@ == context_key());
    assert(m[1].0@ == type_key());
    assert(m[2].0@ == credentials_key());
    assert(m[3].0@ == proof_key());
    let m1 = m.drop_first();
    let m2 = m1.drop_first();
    let m3 = m2.drop_first();
    assert(m1[0] == m[1]);
    assert(m2[0] == m[2]);
    assert(m3[0] == m[3]);
    assert(context_key().len() == 8);
    assert(type_key().len() == 4);
    assert(credentials_key().len() == 20);
    assert(proof_key().len() == 5);
    assert(find_member(m3, proof_key()) == Some(m[3].1));
    assert(find_member(m2, proof_key()) == find_member(m3, proof_key()));
    assert(find_member(m2, credentials_key()) == Some(m[2].1));
    assert(find_member(m1, proof_key()) == find_member(m2, proof_key()));
    assert(find_member(m1, credentials_key()) == find_member(m2, credentials_key()));
    assert(find_member(m, proof_key()) == find_member(m1, proof_key()));
    assert(find_member(m1, type_key()) == Some(m[1].1));
    assert(find_member(m, type_key()) == find_member(m1, type_key()));
    assert(find_member(m, credentials_key()) == find_member(m1, credentials_key()));
}

/// In the presentation of a proof, `@context` is the base credentials context followed
/// by the proof's first credential definition identifier, verbatim.
pub proof fn lemma_context_invariant(doc: JsonValue, cred_def_id: Seq<char>)
    requires
        is_presentation_doc(doc, cred_def_id),
    ensures
        child(doc, context_key()) is Some,
        is_str_array(child(doc, context_key())->0, seq![base_context(), cred_def_id]),
{
    lemma_presentation_children(doc, cred_def_id);
}

/// Whatever the proof, its presentation has the type `VerifiablePresentation` and its
/// proof block the type `AnonCredPresentationProofv1`.
pub proof fn lemma_fixed_literals(doc: JsonValue, cred_def_id: Seq<char>)
    requires
        is_presentation_doc(doc, cred_def_id),
    ensures
        child(doc, type_key()) is Some,
        is_str(child(doc, type_key())->0, presentation_type()),
        child(doc, proof_key()) is Some,
        child(child(doc, proof_key())->0, type_key()) is Some,
        is_str(child(child(doc, proof_key())->0, type_key())->0, proof_type()),
{
    lemma_presentation_children(doc, cred_def_id);
    let p = member_at(doc, 3);
    assert(p->Object_0@[0].0@ == type_key());
}

/// Whatever the proof, its presentation holds exactly one derived credential.
pub proof fn lemma_single_credential(doc: JsonValue, cred_def_id: Seq<char>)
    requires
        is_presentation_doc(doc, cred_def_id),
    ensures
        child(doc, credentials_key()) is Some,
        child(doc, credentials_key())->0 is Array,
        child(doc, credentials_key())->0->Array_0@.len() == 1,
{
    lemma_presentation_children(doc, cred_def_id);
}

} // verus!
