//! Identifiers by what they name. Each is an identifier of any kind, kept
//! apart by its type.

use crate::error::Error;
use crate::id::{parse_ident, render_ident, Id, Ident, IdentView};
use vstd::prelude::*;

verus! {

/// The identifier of a class, the entity that a term frame describes.
#[derive(Debug, PartialEq, Eq, Hash)]
pub struct ClassIdent {
    pub id: Ident,
}

impl View for ClassIdent {
    type V = IdentView;

    open spec fn view(&self) -> IdentView {
        self.id@
    }
}

impl Clone for ClassIdent {
    fn clone(&self) -> (r: Self)
        ensures
            r@ == self@,
    {
        ClassIdent { id: self.id.clone() }
    }
}

impl ClassIdent {
    /// Wraps an identifier.
    pub fn new(id: Ident) -> (r: Self)
        ensures
            r.id == id,
    {
        ClassIdent { id }
    }

    /// The identifier inside.
    pub fn as_ident(&self) -> (r: &Ident)
        ensures
            *r == self.id,
    {
        &self.id
    }

    /// Appends the text of the identifier to `out`.
    pub fn write(&self, out: &mut Vec<char>)
        ensures
            final(out)@ == old(out)@ + render_ident(self@),
    {
        self.id.write(out);
    }

    /// The text of the identifier.
    pub fn to_string(&self) -> (s: String)
        ensures
            s@ == render_ident(self@),
    {
        self.id.to_string()
    }

    /// Reads the identifier that `s` stands for.
    pub fn from_str(s: &str) -> (r: Result<Self, Error>)
        ensures
            match parse_ident(s@) {
                Some(id) => r matches Ok(found) && found@ == id && id.wf(),
                None => r is Err && r.unwrap_err() == Ident::parse_error(),
            },
    {
        match Ident::from_str(s) {
            Ok(id) => Ok(ClassIdent { id }),
            Err(e) => Err(e),
        }
    }
}

impl From<Ident> for ClassIdent {
    fn from(id: Ident) -> (r: Self) {
        ClassIdent { id }
    }
}

impl vstd::std_specs::convert::FromSpecImpl<Ident> for ClassIdent {
    open spec fn obeys_from_spec() -> bool {
        true
    }

    open spec fn from_spec(id: Ident) -> Self {
        ClassIdent { id }
    }
}

impl From<ClassIdent> for Ident {
    fn from(id: ClassIdent) -> (r: Self) {
        id.id
    }
}

impl vstd::std_specs::convert::FromSpecImpl<ClassIdent> for Ident {
    open spec fn obeys_from_spec() -> bool {
        true
    }

    open spec fn from_spec(id: ClassIdent) -> Self {
        id.id
    }
}

/// The identifier of a relation, the entity that a typedef frame describes.
#[derive(Debug, PartialEq, Eq, Hash)]
pub struct RelationIdent {
    pub id: Ident,
}

impl View for RelationIdent {
    type V = IdentView;

    open spec fn view(&self) -> IdentView {
        self.id@
    }
}

impl Clone for RelationIdent {
    fn clone(&self) -> (r: Self)
        ensures
            r@ == self@,
    {
        RelationIdent { id: self.id.clone() }
    }
}

impl RelationIdent {
    /// Wraps an identifier.
    pub fn new(id: Ident) -> (r: Self)
        ensures
            r.id == id,
    {
        RelationIdent { id }
    }

    /// The identifier inside.
    pub fn as_ident(&self) -> (r: &Ident)
        ensures
            *r == self.id,
    {
        &self.id
    }

    /// Appends the text of the identifier to `out`.
    pub fn write(&self, out: &mut Vec<char>)
        ensures
            final(out)@ == old(out)@ + render_ident(self@),
    {
        self.id.write(out);
    }

    /// The text of the identifier.
    pub fn to_string(&self) -> (s: String)
        ensures
            s@ == render_ident(self@),
    {
        self.id.to_string()
    }

    /// Reads the identifier that `s` stands for.
    pub fn from_str(s: &str) -> (r: Result<Self, Error>)
        ensures
            match parse_ident(s@) {
                Some(id) => r matches Ok(found) && found@ == id && id.wf(),
                None => r is Err && r.unwrap_err() == Ident::parse_error(),
            },
    {
        match Ident::from_str(s) {
            Ok(id) => Ok(RelationIdent { id }),
            Err(e) => Err(e),
        }
    }
}

impl From<Ident> for RelationIdent {
    fn from(id: Ident) -> (r: Self) {
        RelationIdent { id }
    }
}

impl vstd::std_specs::convert::FromSpecImpl<Ident> for RelationIdent {
    open spec fn obeys_from_spec() -> bool {
        true
    }

    open spec fn from_spec(id: Ident) -> Self {
        RelationIdent { id }
    }
}

impl From<RelationIdent> for Ident {
    fn from(id: RelationIdent) -> (r: Self) {
        id.id
    }
}

impl vstd::std_specs::convert::FromSpecImpl<RelationIdent> for Ident {
    open spec fn obeys_from_spec() -> bool {
        true
    }

    open spec fn from_spec(id: RelationIdent) -> Self {
        id.id
    }
}

/// The identifier of an instance, the entity that an instance frame describes.
#[derive(Debug, PartialEq, Eq, Hash)]
pub struct InstanceIdent {
    pub id: Ident,
}

impl View for InstanceIdent {
    type V = IdentView;

    open spec fn view(&self) -> IdentView {
        self.id@
    }
}

impl Clone for InstanceIdent {
    fn clone(&self) -> (r: Self)
        ensures
            r@ == self@,
    {
        InstanceIdent { id: self.id.clone() }
    }
}

impl InstanceIdent {
    /// Wraps an identifier.
    pub fn new(id: Ident) -> (r: Self)
        ensures
            r.id == id,
    {
        InstanceIdent { id }
    }

    /// The identifier inside.
    pub fn as_ident(&self) -> (r: &Ident)
        ensures
            *r == self.id,
    {
        &self.id
    }

    /// Appends the text of the identifier to `out`.
    pub fn write(&self, out: &mut Vec<char>)
        ensures
            final(out)@ == old(out)@ + render_ident(self@),
    {
        self.id.write(out);
    }

    /// The text of the identifier.
    pub fn to_string(&self) -> (s: String)
        ensures
            s@ == render_ident(self@),
    {
        self.id.to_string()
    }

    /// Reads the identifier that `s` stands for.
    pub fn from_str(s: &str) -> (r: Result<Self, Error>)
        ensures
            match parse_ident(s@) {
                Some(id) => r matches Ok(found) && found@ == id && id.wf(),
                None => r is Err && r.unwrap_err() == Ident::parse_error(),
            },
    {
        match Ident::from_str(s) {
            Ok(id) => Ok(InstanceIdent { id }),
            Err(e) => Err(e),
        }
    }
}

impl From<Ident> for InstanceIdent {
    fn from(id: Ident) -> (r: Self) {
        InstanceIdent { id }
    }
}

impl vstd::std_specs::convert::FromSpecImpl<Ident> for InstanceIdent {
    open spec fn obeys_from_spec() -> bool {
        true
    }

    open spec fn from_spec(id: Ident) -> Self {
        InstanceIdent { id }
    }
}

impl From<InstanceIdent> for Ident {
    fn from(id: InstanceIdent) -> (r: Self) {
        id.id
    }
}

impl vstd::std_specs::convert::FromSpecImpl<InstanceIdent> for Ident {
    open spec fn obeys_from_spec() -> bool {
        true
    }

    open spec fn from_spec(id: InstanceIdent) -> Self {
        id.id
    }
}

/// The identifier of a subset of the ontology.
#[derive(Debug, PartialEq, Eq, Hash)]
pub struct SubsetIdent {
    pub id: Ident,
}

impl View for SubsetIdent {
    type V = IdentView;

    open spec fn view(&self) -> IdentView {
        self.id@
    }
}

impl Clone for SubsetIdent {
    fn clone(&self) -> (r: Self)
        ensures
            r@ == self@,
    {
        SubsetIdent { id: self.id.clone() }
    }
}

impl SubsetIdent {
    /// Wraps an identifier.
    pub fn new(id: Ident) -> (r: Self)
        ensures
            r.id == id,
    {
        SubsetIdent { id }
    }

    /// The identifier inside.
    pub fn as_ident(&self) -> (r: &Ident)
        ensures
            *r == self.id,
    {
        &self.id
    }

    /// Appends the text of the identifier to `out`.
    pub fn write(&self, out: &mut Vec<char>)
        ensures
            final(out)@ == old(out)@ + render_ident(self@),
    {
        self.id.write(out);
    }

    /// The text of the identifier.
    pub fn to_string(&self) -> (s: String)
        ensures
            s@ == render_ident(self@),
    {
        self.id.to_string()
    }

    /// Reads the identifier that `s` stands for.
    pub fn from_str(s: &str) -> (r: Result<Self, Error>)
        ensures
            match parse_ident(s@) {
                Some(id) => r matches Ok(found) && found@ == id && id.wf(),
                None => r is Err && r.unwrap_err() == Ident::parse_error(),
            },
    {
        match Ident::from_str(s) {
            Ok(id) => Ok(SubsetIdent { id }),
            Err(e) => Err(e),
        }
    }
}

impl From<Ident> for SubsetIdent {
    fn from(id: Ident) -> (r: Self) {
        SubsetIdent { id }
    }
}

impl vstd::std_specs::convert::FromSpecImpl<Ident> for SubsetIdent {
    open spec fn obeys_from_spec() -> bool {
        true
    }

    open spec fn from_spec(id: Ident) -> Self {
        SubsetIdent { id }
    }
}

impl From<SubsetIdent> for Ident {
    fn from(id: SubsetIdent) -> (r: Self) {
        id.id
    }
}

impl vstd::std_specs::convert::FromSpecImpl<SubsetIdent> for Ident {
    open spec fn obeys_from_spec() -> bool {
        true
    }

    open spec fn from_spec(id: SubsetIdent) -> Self {
        id.id
    }
}

/// The identifier of a type of synonym.
#[derive(Debug, PartialEq, Eq, Hash)]
pub struct SynonymTypeIdent {
    pub id: Ident,
}

impl View for SynonymTypeIdent {
    type V = IdentView;

    open spec fn view(&self) -> IdentView {
        self.id@
    }
}

impl Clone for SynonymTypeIdent {
    fn clone(&self) -> (r: Self)
        ensures
            r@ == self@,
    {
        SynonymTypeIdent { id: self.id.clone() }
    }
}

impl SynonymTypeIdent {
    /// Wraps an identifier.
    pub fn new(id: Ident) -> (r: Self)
        ensures
            r.id == id,
    {
        SynonymTypeIdent { id }
    }

    /// The identifier inside.
    pub fn as_ident(&self) -> (r: &Ident)
        ensures
            *r == self.id,
    {
        &self.id
    }

    /// Appends the text of the identifier to `out`.
    pub fn write(&self, out: &mut Vec<char>)
        ensures
            final(out)@ == old(out)@ + render_ident(self@),
    {
        self.id.write(out);
    }

    /// The text of the identifier.
    pub fn to_string(&self) -> (s: String)
        ensures
            s@ == render_ident(self@),
    {
        self.id.to_string()
    }

    /// Reads the identifier that `s` stands for.
    pub fn from_str(s: &str) -> (r: Result<Self, Error>)
        ensures
            match parse_ident(s@) {
                Some(id) => r matches Ok(found) && found@ == id && id.wf(),
                None => r is Err && r.unwrap_err() == Ident::parse_error(),
            },
    {
        match Ident::from_str(s) {
            Ok(id) => Ok(SynonymTypeIdent { id }),
            Err(e) => Err(e),
        }
    }
}

impl From<Ident> for SynonymTypeIdent {
    fn from(id: Ident) -> (r: Self) {
        SynonymTypeIdent { id }
    }
}

impl vstd::std_specs::convert::FromSpecImpl<Ident> for SynonymTypeIdent {
    open spec fn obeys_from_spec() -> bool {
        true
    }

    open spec fn from_spec(id: Ident) -> Self {
        SynonymTypeIdent { id }
    }
}

impl From<SynonymTypeIdent> for Ident {
    fn from(id: SynonymTypeIdent) -> (r: Self) {
        id.id
    }
}

impl vstd::std_specs::convert::FromSpecImpl<SynonymTypeIdent> for Ident {
    open spec fn obeys_from_spec() -> bool {
        true
    }

    open spec fn from_spec(id: SynonymTypeIdent) -> Self {
        id.id
    }
}

/// The identifier of a namespace.
#[derive(Debug, PartialEq, Eq, Hash)]
pub struct NamespaceIdent {
    pub id: Ident,
}

impl View for NamespaceIdent {
    type V = IdentView;

    open spec fn view(&self) -> IdentView {
        self.id@
    }
}

impl Clone for NamespaceIdent {
    fn clone(&self) -> (r: Self)
        ensures
            r@ == self@,
    {
        NamespaceIdent { id: self.id.clone() }
    }
}

impl NamespaceIdent {
    /// Wraps an identifier.
    pub fn new(id: Ident) -> (r: Self)
        ensures
            r.id == id,
    {
        NamespaceIdent { id }
    }

    /// The identifier inside.
    pub fn as_ident(&self) -> (r: &Ident)
        ensures
            *r == self.id,
    {
        &self.id
    }

    /// Appends the text of the identifier to `out`.
    pub fn write(&self, out: &mut Vec<char>)
        ensures
            final(out)@ == old(out)@ + render_ident(self@),
    {
        self.id.write(out);
    }

    /// The text of the identifier.
    pub fn to_string(&self) -> (s: String)
        ensures
            s@ == render_ident(self@),
    {
        self.id.to_string()
    }

    /// Reads the identifier that `s` stands for.
    pub fn from_str(s: &str) -> (r: Result<Self, Error>)
        ensures
            match parse_ident(s@) {
                Some(id) => r matches Ok(found) && found@ == id && id.wf(),
                None => r is Err && r.unwrap_err() == Ident::parse_error(),
            },
    {
        match Ident::from_str(s) {
            Ok(id) => Ok(NamespaceIdent { id }),
            Err(e) => Err(e),
        }
    }
}

impl From<Ident> for NamespaceIdent {
    fn from(id: Ident) -> (r: Self) {
        NamespaceIdent { id }
    }
}

impl vstd::std_specs::convert::FromSpecImpl<Ident> for NamespaceIdent {
    open spec fn obeys_from_spec() -> bool {
        true
    }

    open spec fn from_spec(id: Ident) -> Self {
        NamespaceIdent { id }
    }
}

impl From<NamespaceIdent> for Ident {
    fn from(id: NamespaceIdent) -> (r: Self) {
        id.id
    }
}

impl vstd::std_specs::convert::FromSpecImpl<NamespaceIdent> for Ident {
    open spec fn obeys_from_spec() -> bool {
        true
    }

    open spec fn from_spec(id: NamespaceIdent) -> Self {
        id.id
    }
}

impl RelationIdent {
    /// A borrowed view of the same identifier.
    pub fn share<'a>(&'a self) -> (r: RelationId<'a>)
        ensures
            r@ == self@,
    {
        RelationId { id: self.id.share() }
    }
}

/// The identifier of a relation, borrowed where it can be.
#[derive(Debug, PartialEq, Eq, Hash)]
pub struct RelationId<'a> {
    pub id: Id<'a>,
}

impl<'a> View for RelationId<'a> {
    type V = IdentView;

    open spec fn view(&self) -> IdentView {
        self.id@
    }
}

impl<'a> Clone for RelationId<'a> {
    fn clone(&self) -> (r: Self)
        ensures
            r@ == self@,
    {
        RelationId { id: self.id.clone() }
    }
}

impl<'a> RelationId<'a> {
    /// Wraps the view of an identifier.
    pub fn new(id: Id<'a>) -> (r: Self)
        ensures
            r.id == id,
    {
        RelationId { id }
    }

    /// An owned copy of the identifier.
    pub fn redeem(&self) -> (r: RelationIdent)
        ensures
            r@ == self@,
    {
        RelationIdent { id: self.id.redeem() }
    }

    /// Appends the text of the identifier to `out`.
    pub fn write(&self, out: &mut Vec<char>)
        ensures
            final(out)@ == old(out)@ + render_ident(self@),
    {
        self.id.write(out);
    }
}

} // verus!
