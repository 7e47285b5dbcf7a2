//! Álbumes ligados: una liga copia datos desde otro álbum hacia el actual
//! usando un campo llave presente en ambos. Aquí se decide qué campos se
//! copian y cuándo una liga es válida; la lectura y escritura de registros
//! queda fuera de la biblioteca verificada.

use vstd::prelude::*;
use vstd::string::*;
use crate::error::{MicError, MicErrorSpec};
use crate::importar::aplicar::{aparece, tiene_llave};
use crate::model::{CampoDef, Tabla, TipoCampo};
use crate::texto::concatenar3;

verus! {

/// Una liga: sincroniza datos desde el álbum `ruta_album` usando el campo
/// `llave`. Con `crear_faltantes`, las llaves del álbum ligado que no existen
/// en el actual se dan de alta.
#[derive(Debug, Clone)]
pub struct Liga {
    /// Id en la tabla `ligados`; `0` al crear (lo asigna la base).
    pub id: i64,
    /// Ruta absoluta del álbum del que se copian los datos.
    pub ruta_album: String,
    /// Nombre visible del campo llave común a ambos álbumes.
    pub llave: String,
    pub crear_faltantes: bool,
}

/// Resultado de actualizar una liga.
#[derive(Debug, Clone)]
pub struct ResultadoLiga {
    /// Registros del álbum actual cuyos campos se sincronizaron.
    pub actualizados: u64,
    /// Registros dados de alta porque su llave no existía.
    pub creados: u64,
    /// Llaves del álbum ligado sin coincidencia en el actual (no creadas).
    pub sin_coincidencia: u64,
}

impl Default for ResultadoLiga {
    fn default() -> (r: ResultadoLiga)
        ensures
            r.actualizados == 0 && r.creados == 0 && r.sin_coincidencia == 0,
    {
        ResultadoLiga { actualizados: 0, creados: 0, sin_coincidencia: 0 }
    }
}

/// Algún campo de la tabla principal se llama `nombre`.
pub open spec fn existe_principal(campos: Seq<CampoDef>, nombre: Seq<char>) -> bool {
    exists|i: int|
        0 <= i < campos.len() && (#[trigger] campos[i]).tabla == Tabla::Principal
            && campos[i].nombre@ == nombre
}

/// Si `campos` tiene en la tabla principal un campo llamado `nombre`.
pub fn existe_en(campos: &[CampoDef], nombre: &String) -> (r: bool)
    ensures
        r == existe_principal(campos@, nombre@),
{
    let mut i: usize = 0;
    while i < campos.len()
        invariant
            i <= campos.len(),
            forall|k: int|
                0 <= k < i ==> !((#[trigger] campos@[k]).tabla == Tabla::Principal
                    && campos@[k].nombre@ == nombre@),
        decreases campos.len() - i,
    {
        if campos[i].tabla == Tabla::Principal && campos[i].nombre == *nombre {
            return true;
        }
        i += 1;
    }
    false
}

/// Vista del resultado de validar la llave de una liga.
pub open spec fn validacion_spec(actual: Seq<CampoDef>, ligado: Seq<CampoDef>, llave: Seq<char>) -> Result<(), MicErrorSpec> {
    if !existe_principal(actual, llave) {
        Err(MicErrorSpec::Invalido("el campo llave '"@ + llave + "' no existe en el álbum actual"@))
    } else if !existe_principal(ligado, llave) {
        Err(MicErrorSpec::Invalido("el campo llave '"@ + llave + "' no existe en el álbum ligado"@))
    } else {
        Ok(())
    }
}

/// Comprueba que el campo llave exista en la tabla principal de ambos
/// álbumes; si falta, dice en cuál.
pub fn validar_llave(actual: &[CampoDef], ligado: &[CampoDef], llave: &String) -> (r: Result<
    (),
    MicError,
>)
    ensures
        match (r, validacion_spec(actual@, ligado@, llave@)) {
            (Ok(()), Ok(())) => true,
            (Err(e), Err(f)) => e@ == f,
            _ => false,
        },
{
    if !existe_en(actual, llave) {
        return Err(
            MicError::Invalido(
                concatenar3("el campo llave '", llave.as_str(), "' no existe en el álbum actual"),
            ),
        );
    }
    if !existe_en(ligado, llave) {
        return Err(
            MicError::Invalido(
                concatenar3("el campo llave '", llave.as_str(), "' no existe en el álbum ligado"),
            ),
        );
    }
    Ok(())
}

/// Un campo del álbum actual recibe valores del ligado: es de la tabla
/// principal, no es la llave, no es calculado (se recalcula) y el ligado
/// tiene en su principal un campo del mismo nombre.
pub open spec fn se_copia(c: CampoDef, ligado: Seq<CampoDef>, llave: Seq<char>) -> bool {
    &&& c.tabla == Tabla::Principal
    &&& c.nombre@ != llave
    &&& c.tipo != TipoCampo::Calculado
    &&& existe_principal(ligado, c.nombre@)
}

/// Los campos de `actual` que se copian, en su orden.
pub open spec fn a_copiar(actual: Seq<CampoDef>, ligado: Seq<CampoDef>, llave: Seq<char>) -> Seq<
    CampoDef,
>
    decreases actual.len(),
{
    if actual.len() == 0 {
        Seq::empty()
    } else {
        let previo = a_copiar(actual.drop_last(), ligado, llave);
        if se_copia(actual.last(), ligado, llave) {
            previo.push(actual.last())
        } else {
            previo
        }
    }
}

/// Campos del álbum actual cuyos valores se copian desde el ligado.
pub fn campos_a_copiar(actual: &[CampoDef], ligado: &[CampoDef], llave: &String) -> (r: Vec<
    CampoDef,
>)
    ensures
        r@ == a_copiar(actual@, ligado@, llave@),
{
    let mut r: Vec<CampoDef> = Vec::new();
    let mut i: usize = 0;
    while i < actual.len()
        invariant
            i <= actual.len(),
            r@ == a_copiar(actual@.subrange(0, i as int), ligado@, llave@),
        decreases actual.len() - i,
    {
        let ghost sub = actual@.subrange(0, i + 1);
        assert(sub.drop_last() =~= actual@.subrange(0, i as int));
        let c = &actual[i];
        if c.tabla == Tabla::Principal && c.nombre != *llave && c.tipo != TipoCampo::Calculado
            && existe_en(ligado, &c.nombre) {
            r.push(c.copia());
        }
        i += 1;
    }
    assert(actual@.subrange(0, i as int) =~= actual@);
    r
}

/// `i` es la última posición con la llave `k` (en duplicados, la última
/// gana).
pub open spec fn es_ultima(claves: Seq<Option<String>>, k: Seq<char>, i: int) -> bool {
    &&& 0 <= i < claves.len()
    &&& tiene_llave(claves[i], k)
    &&& forall|m: int| i < m < claves.len() ==> !tiene_llave(#[trigger] claves[m], k)
}

/// Última posición con la llave `k`, si alguna.
fn posicion_ultima(claves: &[Option<String>], k: &String) -> (r: Option<usize>)
    ensures
        match r {
            Some(i) => es_ultima(claves@, k@, i as int),
            None => !aparece(claves@, k@),
        },
{
    let mut i: usize = claves.len();
    while i > 0
        invariant
            i <= claves.len(),
            forall|m: int| i <= m < claves.len() ==> !tiene_llave(#[trigger] claves@[m], k@),
        decreases i,
    {
        i -= 1;
        match &claves[i] {
            Some(s) => {
                if *s == *k {
                    return Some(i);
                }
            },
            None => {},
        }
    }
    None
}

/// Una posición del álbum ligado falta en el actual: es la última con su
/// llave y esa llave no está en el álbum actual.
pub open spec fn es_faltante(actual: Seq<Option<String>>, ligado: Seq<Option<String>>, i: int) -> bool {
    &&& 0 <= i < ligado.len()
    &&& ligado[i] is Some
    &&& es_ultima(ligado, ligado[i]->0@, i)
    &&& !aparece(actual, ligado[i]->0@)
}

/// El origen correcto de un registro del álbum actual con llave `c`: el
/// último registro del ligado con esa llave, o ninguno.
pub open spec fn origen_correcto(ligado: Seq<Option<String>>, c: Option<String>, o: Option<usize>) -> bool {
    match c {
        None => o is None,
        Some(k) => match o {
            Some(i) => es_ultima(ligado, k@, i as int),
            None => !aparece(ligado, k@),
        },
    }
}

/// Plan de sincronización de una liga.
#[derive(Debug, Clone)]
pub struct PlanLiga {
    /// Por registro del álbum actual, la posición del registro del ligado
    /// del que copia (si su llave está en el ligado).
    pub origen: Vec<Option<usize>>,
    /// Posiciones del ligado cuya llave no está en el actual (una por llave,
    /// la última), en orden creciente: se crean, o se cuentan como sin
    /// coincidencia.
    pub faltantes: Vec<usize>,
}

/// Empareja los registros de ambos álbumes por su llave: cada registro del
/// actual copia del último del ligado con su misma llave, y cada llave del
/// ligado ausente en el actual queda como faltante una sola vez. `actual` y
/// `ligado` tienen la llave de cada registro, en orden de id.
///
/// Toda llave del ligado termina, así, o sincronizando algún registro del
/// actual o entre las faltantes, nunca en ambos.
pub fn planear_liga(actual: &[Option<String>], ligado: &[Option<String>]) -> (r: PlanLiga)
    ensures
        r.origen.len() == actual.len(),
        forall|j: int|
            0 <= j < actual.len() ==> origen_correcto(ligado@, actual@[j], #[trigger] r.origen@[j]),
        forall|a: int, b: int|
            0 <= a < b < r.faltantes.len() ==> r.faltantes@[a] < r.faltantes@[b],
        forall|a: int|
            0 <= a < r.faltantes.len() ==> es_faltante(actual@, ligado@, #[trigger] r.faltantes@[a] as int),
        forall|i: int|
            es_faltante(actual@, ligado@, i) ==> r.faltantes@.contains(i as usize),
        forall|i: int|
            #![trigger ligado@[i]]
            0 <= i < ligado.len() && ligado@[i] is Some && es_ultima(ligado@, ligado@[i]->0@, i)
                ==> (r.faltantes@.contains(i as usize) <==> !exists|j: int|
                0 <= j < actual.len() && #[trigger] r.origen@[j] == Some(i as usize)),
{
    let mut origen: Vec<Option<usize>> = Vec::new();
    let mut j: usize = 0;
    while j < actual.len()
        invariant
            j <= actual.len(),
            origen.len() == j,
            forall|m: int|
                0 <= m < j ==> origen_correcto(ligado@, actual@[m], #[trigger] origen@[m]),
        decreases actual.len() - j,
    {
        match &actual[j] {
            Some(k) => {
                origen.push(posicion_ultima(ligado, k));
            },
            None => {
                origen.push(None);
            },
        }
        j += 1;
    }
    let mut faltantes: Vec<usize> = Vec::new();
    let mut i: usize = 0;
    while i < ligado.len()
        invariant
            i <= ligado.len(),
            forall|a: int, b: int| 0 <= a < b < faltantes.len() ==> faltantes@[a] < faltantes@[b],
            forall|a: int| 0 <= a < faltantes.len() ==> faltantes@[a] < i,
            forall|a: int|
                0 <= a < faltantes.len() ==> es_faltante(actual@, ligado@, #[trigger] faltantes@[a] as int),
            forall|m: int|
                0 <= m < i && es_faltante(actual@, ligado@, m) ==> faltantes@.contains(m as usize),
        decreases ligado.len() - i,
    {
        match &ligado[i] {
            Some(k) => {
                let ultima = posicion_ultima(ligado, k);
                let en_actual = crate::importar::aplicar::posicion_primera(actual, k);
                if ultima == Some(i) && en_actual.is_none() {
                    let ghost antes = faltantes@;
                    faltantes.push(i);
                    assert(faltantes@[faltantes.len() - 1] == i);
                    assert forall|m: int|
                        0 <= m < i + 1 && es_faltante(actual@, ligado@, m) implies faltantes@.contains(
                        m as usize,
                    ) by {
                        if m < i {
                            let w = choose|a: int| 0 <= a < antes.len() && antes[a] == m as usize;
                            assert(faltantes@[w] == m as usize);
                        } else {
                            assert(faltantes@[faltantes.len() - 1] == m as usize);
                        }
                    }
                } else {
                    assert(!es_faltante(actual@, ligado@, i as int));
                }
            },
            None => {},
        }
        i += 1;
    }
    proof {
        assert forall|x: int|
            #![trigger ligado@[x]]
            0 <= x < ligado.len() && ligado@[x] is Some && es_ultima(ligado@, ligado@[x]->0@, x)
                implies (faltantes@.contains(x as usize) <==> !exists|j: int|
                0 <= j < actual.len() && #[trigger] origen@[j] == Some(x as usize)) by {
            let k = ligado@[x]->0@;
            if faltantes@.contains(x as usize) {
                let a = choose|a: int| 0 <= a < faltantes.len() && faltantes@[a] == x as usize;
                assert(es_faltante(actual@, ligado@, faltantes@[a] as int));
                assert forall|j: int| 0 <= j < actual.len() implies #[trigger] origen@[j] != Some(x as usize) by {
                    assert(origen_correcto(ligado@, actual@[j], origen@[j]));
                    if origen@[j] == Some(x as usize) {
                        assert(tiene_llave(actual@[j], k));
                    }
                }
            } else {
                assert(!es_faltante(actual@, ligado@, x));
                let j = choose|j: int| 0 <= j < actual.len() && tiene_llave(#[trigger] actual@[j], k);
                assert(origen_correcto(ligado@, actual@[j], origen@[j]));
                assert(aparece(ligado@, k)) by {
                    assert(tiene_llave(ligado@[x], k));
                }
                let y = origen@[j]->0;
                assert(es_ultima(ligado@, k, y as int));
                assert(y == x as usize);
            }
        }
    }
    PlanLiga { origen, faltantes }
}

} // verus!
