//! Suppliers: the canonical source of supplier identity.

use vstd::prelude::*;
use crate::audit::Auditable;
use crate::runtime::{fresh_id, now_millis};

verus! {

/// A supplier of raw materials.
#[derive(Debug)]
pub struct Fornecedor {
    pub id: String,
    pub nome: String,
    pub created_at: i64,
    pub updated_at: i64,
}

impl Clone for Fornecedor {
    fn clone(&self) -> (r: Self)
        ensures
            r == *self,
    {
        Fornecedor {
            id: self.id.clone(),
            nome: self.nome.clone(),
            created_at: self.created_at,
            updated_at: self.updated_at,
        }
    }
}

impl Fornecedor {
    /// A new supplier with a fresh identifier, created and last modified now.
    pub fn new(nome: String) -> (r: Fornecedor)
        ensures
            r.nome == nome,
            r.id@.len() == 36,
            r.created_at == r.updated_at,
            r.created_at >= 0,
    {
        let id = fresh_id();
        let now = now_millis();
        Fornecedor { id, nome, created_at: now, updated_at: now }
    }
}

impl Auditable for Fornecedor {
    open spec fn stamp(&self) -> i64 {
        self.updated_at
    }

    open spec fn with_stamp(&self, t: i64) -> Self {
        Fornecedor { updated_at: t, ..*self }
    }

    fn touch(&mut self) {
        self.updated_at = now_millis();
    }

    fn updated_at(&self) -> (r: i64) {
        self.updated_at
    }
}

} // verus!
