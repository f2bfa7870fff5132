//! A single-parameter preference filed under a named category, with the
//! normalised satisfaction formulas shared by the category-based reports.

use vstd::prelude::*;

use crate::fixed::{mul_div, sdiv, SCALE, VAL_LIMIT};
use crate::val_satisfaccion_individual::ValoresSatisfaccionIndividual;

verus! {

/// One category name together with the preference state it labels.
pub struct HashedSatisfaccionCategorias {
    categoria: String,
    vector_preferencias: ValoresSatisfaccionIndividual,
}

impl HashedSatisfaccionCategorias {
    /// The category name, as a sequence of characters.
    pub closed spec fn spec_categoria(self) -> Seq<char> {
        self.categoria@
    }

    /// The preference state filed under the category.
    pub closed spec fn spec_preferencias(self) -> ValoresSatisfaccionIndividual {
        self.vector_preferencias
    }

    /// Files a preference state under a category name.
    pub fn convertir_a_hashmap(
        categoria: String,
        vector_preferencias: ValoresSatisfaccionIndividual,
    ) -> (r: Self)
        ensures
            r.spec_categoria() == categoria@,
            r.spec_preferencias() == vector_preferencias,
    {
        HashedSatisfaccionCategorias { categoria, vector_preferencias }
    }

    /// The category name.
    pub fn get_categoria(&self) -> (r: &String)
        ensures
            r@ == self.spec_categoria(),
    {
        &self.categoria
    }

    /// The preference state.
    pub fn get_vector_preferencias(&self) -> (r: &ValoresSatisfaccionIndividual)
        ensures
            *r == self.spec_preferencias(),
    {
        &self.vector_preferencias
    }

    /// Satisfaction of a value when smaller is better: the value's distance
    /// below the maximum, normalised by the range (one unit at the minimum,
    /// zero at the maximum).
    pub fn calcular_min(valor_analizar: i64, vmin: i64, vmax: i64) -> (r: i64)
        requires
            -VAL_LIMIT <= vmin < vmax <= VAL_LIMIT,
            -VAL_LIMIT <= valor_analizar <= VAL_LIMIT,
        ensures
            r == sdiv((vmax - valor_analizar) * SCALE, vmax - vmin),
    {
        proof {
            crate::fixed::lemma_abs_mul_bound(
                vmax - valor_analizar,
                SCALE as int,
                2 * VAL_LIMIT,
                SCALE as int,
            );
            crate::fixed::lemma_sdiv_bounds((vmax - valor_analizar) * SCALE, vmax - vmin);
        }
        mul_div(vmax - valor_analizar, SCALE, vmax - vmin)
    }

    /// Satisfaction of a value when larger is better: the value's distance
    /// above the minimum, normalised by the range.
    fn calcular_max(valor_analizar: i64, vmin: i64, vmax: i64) -> (r: i64)
        requires
            -VAL_LIMIT <= vmin < vmax <= VAL_LIMIT,
            -VAL_LIMIT <= valor_analizar <= VAL_LIMIT,
        ensures
            r == sdiv((valor_analizar - vmin) * SCALE, vmax - vmin),
    {
        proof {
            crate::fixed::lemma_abs_mul_bound(
                valor_analizar - vmin,
                SCALE as int,
                2 * VAL_LIMIT,
                SCALE as int,
            );
            crate::fixed::lemma_sdiv_bounds((valor_analizar - vmin) * SCALE, vmax - vmin);
        }
        mul_div(valor_analizar - vmin, SCALE, vmax - vmin)
    }
}

} // verus!
