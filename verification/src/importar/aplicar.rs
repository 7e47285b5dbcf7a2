//! Aplicación de una importación ya preparada: a qué registro del álbum va
//! cada fila, qué campos de un registro existente se escriben según la
//! política, y qué avisos se dan. Las lecturas y escrituras en la base quedan
//! fuera; aquí llegan como valores simples lo que se leyó del álbum.

use vstd::prelude::*;
use vstd::string::*;
use crate::importar::celdas::Politica;
use crate::importar::preparar::{contiene_texto, empujar_texto, vista_textos};
use crate::model::TipoCampo;
use crate::texto::{cadena, concatenar, concatenar3, decimal, decimal_spec};

verus! {

// ---------------------------------------------------------------------------
// Registros existentes
// ---------------------------------------------------------------------------

/// Lo que cuenta del valor actual de un campo para decidir si está vacío:
/// si es nulo (o falta), si su texto recortado es vacío y si su valor
/// numérico es cero.
#[derive(Debug, Clone, Copy)]
pub struct ValorActual {
    pub nulo: bool,
    pub en_blanco: bool,
    pub cero: bool,
}

/// Vacío según el tipo: en un campo numérico, de moneda o calculado solo el
/// nulo (el 0 es un valor legítimo); en un multidato, sin valores (conteo
/// nulo o cero); en los demás, nulo o texto en blanco.
pub open spec fn vacio_spec(v: ValorActual, tipo: TipoCampo) -> bool {
    match tipo {
        TipoCampo::Numerico | TipoCampo::Moneda | TipoCampo::Calculado => v.nulo,
        TipoCampo::Multidato => v.nulo || v.cero,
        _ => v.nulo || v.en_blanco,
    }
}

/// ¿El valor actual cuenta como vacío para la política `rellenar_vacios`?
pub fn esta_vacio_actual(v: &ValorActual, tipo: TipoCampo) -> (r: bool)
    ensures
        r == vacio_spec(*v, tipo),
{
    match tipo {
        TipoCampo::Numerico | TipoCampo::Moneda | TipoCampo::Calculado => v.nulo,
        TipoCampo::Multidato => v.nulo || v.cero,
        _ => v.nulo || v.en_blanco,
    }
}

/// Un campo escalar de la fila frente al registro existente: si la fila trae
/// valor para él, si el valor actual está vacío y si ya es igual al del
/// archivo.
#[derive(Debug, Clone, Copy)]
pub struct EntradaEscalar {
    pub en_archivo: bool,
    pub vacio_actual: bool,
    pub igual_actual: bool,
}

/// Un campo multidato de la fila frente al registro existente: si la fila
/// trae valores (no vacíos), si el registro no tiene ninguno y si la lista
/// actual ya es igual a la del archivo.
#[derive(Debug, Clone, Copy)]
pub struct EntradaMultidato {
    pub en_archivo: bool,
    pub sin_actuales: bool,
    pub iguales: bool,
}

/// Qué se escribe de una fila en un registro existente.
#[derive(Debug, Clone)]
pub struct DecisionExistente {
    /// Por campo escalar, en el orden de entrada: si se escribe.
    pub escalares: Vec<bool>,
    /// Por campo multidato, en el orden de entrada: si se escribe.
    pub multidatos: Vec<bool>,
    /// El registro cambia (se cuenta como actualizado; si no, sin cambio).
    pub actualiza: bool,
}

/// La política deja escribir sobre un valor actual que está (o no) vacío.
pub open spec fn permite(p: Politica, vacio: bool) -> bool {
    match p {
        Politica::Sustituir => true,
        Politica::RellenarVacios => vacio,
        Politica::Mantener => false,
    }
}

pub open spec fn escribe_escalar(p: Politica, e: EntradaEscalar) -> bool {
    e.en_archivo && permite(p, e.vacio_actual) && !e.igual_actual
}

pub open spec fn escribe_multidato(p: Politica, e: EntradaMultidato) -> bool {
    e.en_archivo && permite(p, e.sin_actuales) && !e.iguales
}

/// Decide, campo por campo, qué escribe una fila en el registro existente
/// con su misma llave: `sustituir` escribe todo lo que trae el archivo,
/// `rellenar_vacios` solo sobre valores vacíos, `mantener` nada; un valor
/// igual al actual no cuenta como cambio.
pub fn decidir_existente(
    politica: Politica,
    escalares: &[EntradaEscalar],
    multidatos: &[EntradaMultidato],
) -> (r: DecisionExistente)
    ensures
        r.escalares.len() == escalares.len(),
        r.multidatos.len() == multidatos.len(),
        forall|i: int|
            0 <= i < escalares.len() ==> r.escalares@[i] == escribe_escalar(
                politica,
                #[trigger] escalares@[i],
            ),
        forall|i: int|
            0 <= i < multidatos.len() ==> r.multidatos@[i] == escribe_multidato(
                politica,
                #[trigger] multidatos@[i],
            ),
        r.actualiza == ((exists|i: int|
            0 <= i < escalares.len() && escribe_escalar(politica, #[trigger] escalares@[i])) || (
        exists|i: int|
            0 <= i < multidatos.len() && escribe_multidato(politica, #[trigger] multidatos@[i]))),
{
    let mut es: Vec<bool> = Vec::new();
    let mut actualiza = false;
    let mut i: usize = 0;
    while i < escalares.len()
        invariant
            i <= escalares.len(),
            es.len() == i,
            forall|m: int|
                0 <= m < i ==> es@[m] == escribe_escalar(politica, #[trigger] escalares@[m]),
            actualiza == exists|m: int|
                0 <= m < i && escribe_escalar(politica, #[trigger] escalares@[m]),
        decreases escalares.len() - i,
    {
        let e = escalares[i];
        let permitido = match politica {
            Politica::Sustituir => true,
            Politica::RellenarVacios => e.vacio_actual,
            Politica::Mantener => false,
        };
        let w = e.en_archivo && permitido && !e.igual_actual;
        es.push(w);
        if w {
            actualiza = true;
        }
        proof {
            if w {
                assert(escribe_escalar(politica, escalares@[i as int]));
            }
        }
        i += 1;
    }
    let ghost por_escalar = actualiza;
    let mut ms: Vec<bool> = Vec::new();
    let mut j: usize = 0;
    while j < multidatos.len()
        invariant
            j <= multidatos.len(),
            ms.len() == j,
            forall|m: int|
                0 <= m < j ==> ms@[m] == escribe_multidato(politica, #[trigger] multidatos@[m]),
            actualiza == (por_escalar || exists|m: int|
                0 <= m < j && escribe_multidato(politica, #[trigger] multidatos@[m])),
        decreases multidatos.len() - j,
    {
        let e = multidatos[j];
        let permitido = match politica {
            Politica::Sustituir => true,
            Politica::RellenarVacios => e.sin_actuales,
            Politica::Mantener => false,
        };
        let w = e.en_archivo && permitido && !e.iguales;
        ms.push(w);
        if w {
            actualiza = true;
        }
        proof {
            if w {
                assert(escribe_multidato(politica, multidatos@[j as int]));
            }
        }
        j += 1;
    }
    DecisionExistente { escalares: es, multidatos: ms, actualiza }
}


// ---------------------------------------------------------------------------
// Destino de cada fila
// ---------------------------------------------------------------------------

/// La llave (opcional) de un registro es `k`.
pub open spec fn tiene_llave(c: Option<String>, k: Seq<char>) -> bool {
    c matches Some(s) && s@ == k
}

/// La llave `k` está entre las de `claves`.
pub open spec fn aparece(claves: Seq<Option<String>>, k: Seq<char>) -> bool {
    exists|i: int| 0 <= i < claves.len() && tiene_llave(#[trigger] claves[i], k)
}

/// `i` es la primera posición con la llave `k`.
pub open spec fn es_primera(claves: Seq<Option<String>>, k: Seq<char>, i: int) -> bool {
    &&& 0 <= i < claves.len()
    &&& tiene_llave(claves[i], k)
    &&& forall|m: int| 0 <= m < i ==> !tiene_llave(#[trigger] claves[m], k)
}

/// Primera posición con la llave `k`, si alguna.
pub fn posicion_primera(claves: &[Option<String>], k: &String) -> (r: Option<usize>)
    ensures
        match r {
            Some(i) => es_primera(claves@, k@, i as int),
            None => !aparece(claves@, k@),
        },
{
    let mut i: usize = 0;
    while i < claves.len()
        invariant
            i <= claves.len(),
            forall|m: int| 0 <= m < i ==> !tiene_llave(#[trigger] claves@[m], k@),
        decreases claves.len() - i,
    {
        match &claves[i] {
            Some(s) => {
                if *s == *k {
                    return Some(i);
                }
            },
            None => {},
        }
        i += 1;
    }
    None
}

/// A dónde va una fila del archivo.
#[derive(Debug, Clone, Copy, PartialEq, Eq, Structural)]
pub enum Destino {
    /// Al registro del álbum en esa posición (la primera con su llave).
    Existente(usize),
    /// A un registro nuevo.
    Crear,
    /// A ninguno: su llave no está en el álbum y no se crean faltantes.
    SinCambio,
}

/// El destino de una fila con llave `k`.
pub open spec fn destino_correcto(album: Seq<Option<String>>, k: Seq<char>, crear: bool, d: Destino) -> bool {
    match d {
        Destino::Existente(i) => es_primera(album, k, i as int),
        Destino::Crear => crear && !aparece(album, k),
        Destino::SinCambio => !crear && !aparece(album, k),
    }
}

/// Llaves repetidas en el álbum, cada una una vez, en el orden en que
/// aparece su segunda ocurrencia.
pub open spec fn repetidas(c: Seq<Option<String>>) -> Seq<Seq<char>>
    decreases c.len(),
{
    if c.len() == 0 {
        Seq::empty()
    } else {
        let previas = repetidas(c.drop_last());
        match c.last() {
            Some(k) => if aparece(c.drop_last(), k@) && !previas.contains(k@) {
                previas.push(k@)
            } else {
                previas
            },
            None => previas,
        }
    }
}

/// Filas cuya llave no está en el álbum.
pub open spec fn sin_album(album: Seq<Option<String>>, filas: Seq<String>) -> nat
    decreases filas.len(),
{
    if filas.len() == 0 {
        0
    } else {
        sin_album(album, filas.drop_last()) + if aparece(album, filas.last()@) {
            0nat
        } else {
            1nat
        }
    }
}

pub open spec fn msg_repetida(k: Seq<char>) -> Seq<char> {
    "la llave '"@ + k + "' aparece varias veces en el álbum; solo se actualizó una"@
}

pub open spec fn msg_no_encontradas(n: nat) -> Seq<char> {
    decimal_spec(n) + " llave(s) no encontrada(s) en el álbum (no se crearon)"@
}

/// Los avisos de aplicar una importación: uno por llave repetida en el
/// álbum y, si no se crean faltantes, uno con cuántas filas no encontraron
/// su llave.
pub open spec fn avisos_spec(album: Seq<Option<String>>, filas: Seq<String>, crear: bool) -> Seq<Seq<char>> {
    repetidas(album).map_values(|k: Seq<char>| msg_repetida(k)) + if !crear && sin_album(album, filas) > 0 {
        seq![msg_no_encontradas(sin_album(album, filas))]
    } else {
        Seq::empty()
    }
}

/// Plan de aplicación de una importación.
#[derive(Debug, Clone)]
pub struct PlanImportacion {
    /// Por fila del archivo, su destino.
    pub destinos: Vec<Destino>,
    pub avisos: Vec<String>,
}

/// Si la llave `k` está entre las primeras `hasta` de `claves`.
fn aparece_antes(claves: &[Option<String>], hasta: usize, k: &String) -> (r: bool)
    requires
        hasta <= claves.len(),
    ensures
        r == aparece(claves@.subrange(0, hasta as int), k@),
{
    let ghost sub = claves@.subrange(0, hasta as int);
    let mut i: usize = 0;
    while i < hasta
        invariant
            i <= hasta <= claves.len(),
            sub == claves@.subrange(0, hasta as int),
            forall|m: int| 0 <= m < i ==> !tiene_llave(#[trigger] claves@[m], k@),
        decreases hasta - i,
    {
        match &claves[i] {
            Some(s) => {
                if *s == *k {
                    assert(tiene_llave(sub[i as int], k@));
                    return true;
                }
            },
            None => {},
        }
        i += 1;
    }
    assert forall|m: int| 0 <= m < sub.len() implies !tiene_llave(#[trigger] sub[m], k@) by {
        assert(sub[m] == claves@[m]);
    }
    false
}

/// Las llaves repetidas del álbum, cada una una vez.
fn llaves_repetidas(album: &[Option<String>]) -> (r: Vec<String>)
    ensures
        vista_textos(r@) == repetidas(album@),
{
    let mut r: Vec<String> = Vec::new();
    let mut i: usize = 0;
    while i < album.len()
        invariant
            i <= album.len(),
            vista_textos(r@) == repetidas(album@.subrange(0, i as int)),
        decreases album.len() - i,
    {
        let ghost sub = album@.subrange(0, i + 1);
        assert(sub.drop_last() =~= album@.subrange(0, i as int));
        assert(sub.last() == album@[i as int]);
        match &album[i] {
            Some(k) => {
                if aparece_antes(album, i, k) && !contiene_texto(&r, k) {
                    empujar_texto(&mut r, k.clone());
                }
            },
            None => {},
        }
        i += 1;
    }
    assert(album@.subrange(0, album.len() as int) =~= album@);
    r
}

/// A dónde va cada fila del archivo y qué avisos da la aplicación:
/// una fila cuya llave está en el álbum va al primer registro con esa llave
/// (el más antiguo); si no está, a uno nuevo cuando se crean faltantes o a
/// ninguno si no. `album` tiene la llave canónica de cada registro (en orden
/// de id), `filas` la de cada fila preparada.
pub fn planear_importacion(album: &[Option<String>], filas: &[String], crear_faltantes: bool) -> (r:
    PlanImportacion)
    ensures
        r.destinos.len() == filas.len(),
        forall|j: int|
            0 <= j < filas.len() ==> destino_correcto(
                album@,
                filas@[j]@,
                crear_faltantes,
                #[trigger] r.destinos@[j],
            ),
        vista_textos(r.avisos@) == avisos_spec(album@, filas@, crear_faltantes),
{
    let mut destinos: Vec<Destino> = Vec::new();
    let mut faltan: u64 = 0;
    let mut j: usize = 0;
    while j < filas.len()
        invariant
            j <= filas.len(),
            destinos.len() == j,
            faltan <= j,
            faltan == sin_album(album@, filas@.subrange(0, j as int)),
            forall|m: int|
                0 <= m < j ==> destino_correcto(
                    album@,
                    filas@[m]@,
                    crear_faltantes,
                    #[trigger] destinos@[m],
                ),
        decreases filas.len() - j,
    {
        let ghost sub = filas@.subrange(0, j + 1);
        assert(sub.drop_last() =~= filas@.subrange(0, j as int));
        assert(sub.last() == filas@[j as int]);
        match posicion_primera(album, &filas[j]) {
            Some(i) => {
                destinos.push(Destino::Existente(i));
            },
            None => {
                faltan = faltan + 1;
                if crear_faltantes {
                    destinos.push(Destino::Crear);
                } else {
                    destinos.push(Destino::SinCambio);
                }
            },
        }
        j += 1;
    }
    assert(filas@.subrange(0, filas.len() as int) =~= filas@);
    let repetidas_v = llaves_repetidas(album);
    let mut avisos: Vec<String> = Vec::new();
    let mut k: usize = 0;
    while k < repetidas_v.len()
        invariant
            k <= repetidas_v.len(),
            vista_textos(repetidas_v@) == repetidas(album@),
            vista_textos(avisos@) == repetidas(album@).subrange(0, k as int).map_values(
                |x: Seq<char>| msg_repetida(x),
            ),
        decreases repetidas_v.len() - k,
    {
        proof {
            reveal_strlit("la llave '");
            reveal_strlit("' aparece varias veces en el álbum; solo se actualizó una");
        }
        let m = concatenar3(
            "la llave '",
            repetidas_v[k].as_str(),
            "' aparece varias veces en el álbum; solo se actualizó una",
        );
        assert(repetidas_v@[k as int]@ == repetidas(album@)[k as int]) by {
            assert(vista_textos(repetidas_v@)[k as int] == repetidas_v@[k as int]@);
        }
        let ghost antes = vista_textos(avisos@);
        empujar_texto(&mut avisos, m);
        assert(repetidas(album@).subrange(0, k + 1).map_values(|x: Seq<char>| msg_repetida(x))
            =~= antes.push(msg_repetida(repetidas(album@)[k as int])));
        k += 1;
    }
    assert(repetidas(album@).subrange(0, repetidas_v.len() as int) =~= repetidas(album@)) by {
        assert(repetidas_v@.len() == vista_textos(repetidas_v@).len());
    }
    if !crear_faltantes && faltan > 0 {
        proof {
            reveal_strlit(" llave(s) no encontrada(s) en el álbum (no se crearon)");
        }
        let n = cadena(decimal(faltan).as_slice());
        let m = concatenar(n.as_str(), " llave(s) no encontrada(s) en el álbum (no se crearon)");
        let ghost antes = vista_textos(avisos@);
        empujar_texto(&mut avisos, m);
        assert(vista_textos(avisos@) =~= avisos_spec(album@, filas@, crear_faltantes));
    } else {
        assert(vista_textos(avisos@) =~= avisos_spec(album@, filas@, crear_faltantes));
    }
    PlanImportacion { destinos, avisos }
}

// ---------------------------------------------------------------------------
// Efecto de cada fila y recuento
// ---------------------------------------------------------------------------

/// Lo que la importación hace con una fila.
#[derive(Debug, Clone, Copy, PartialEq, Eq, Structural)]
pub enum Efecto {
    /// Da de alta un registro nuevo.
    Crea,
    /// Actualiza el registro existente de su llave.
    Actualiza,
    /// No cambia nada.
    SinCambio,
}

/// El efecto de una fila según su destino y, si va a un registro existente,
/// según la decisión de la política (si actualiza).
pub open spec fn efecto_spec(destino: Destino, actualiza: bool) -> Efecto {
    match destino {
        Destino::Crear => Efecto::Crea,
        Destino::SinCambio => Efecto::SinCambio,
        Destino::Existente(_) => if actualiza {
            Efecto::Actualiza
        } else {
            Efecto::SinCambio
        },
    }
}

/// El efecto de una fila.
pub fn efecto_de(destino: &Destino, actualiza: bool) -> (r: Efecto)
    ensures
        r == efecto_spec(*destino, actualiza),
{
    match destino {
        Destino::Crear => Efecto::Crea,
        Destino::SinCambio => Efecto::SinCambio,
        Destino::Existente(_) => if actualiza {
            Efecto::Actualiza
        } else {
            Efecto::SinCambio
        },
    }
}

/// Si la fila escribe en el álbum: solo fuera del análisis en seco, y solo si
/// crea o actualiza.
pub open spec fn escribe_spec(efecto: Efecto, dry_run: bool) -> bool {
    !dry_run && efecto != Efecto::SinCambio
}

/// Si la fila escribe en el álbum.
pub fn escribe(efecto: Efecto, dry_run: bool) -> (r: bool)
    ensures
        r == escribe_spec(efecto, dry_run),
{
    !dry_run && efecto != Efecto::SinCambio
}

/// Filas con el efecto `e`.
pub open spec fn cuenta_efecto(v: Seq<Efecto>, e: Efecto) -> nat
    decreases v.len(),
{
    if v.len() == 0 {
        0
    } else {
        cuenta_efecto(v.drop_last(), e) + if v.last() == e {
            1nat
        } else {
            0nat
        }
    }
}

proof fn lema_cuentas_suman(v: Seq<Efecto>)
    ensures
        cuenta_efecto(v, Efecto::Crea) + cuenta_efecto(v, Efecto::Actualiza) + cuenta_efecto(v, Efecto::SinCambio)
            == v.len(),
    decreases v.len(),
{
    if v.len() > 0 {
        lema_cuentas_suman(v.drop_last());
    }
}

/// Recuento de las filas importadas: creadas, actualizadas y sin cambio. Las
/// tres cuentas suman el número de filas.
pub fn contar_efectos(efectos: &[Efecto]) -> (r: (u64, u64, u64))
    requires
        efectos@.len() <= u64::MAX,
    ensures
        r.0 == cuenta_efecto(efectos@, Efecto::Crea),
        r.1 == cuenta_efecto(efectos@, Efecto::Actualiza),
        r.2 == cuenta_efecto(efectos@, Efecto::SinCambio),
        r.0 + r.1 + r.2 == efectos@.len(),
{
    let mut c: u64 = 0;
    let mut a: u64 = 0;
    let mut n: u64 = 0;
    let mut i: usize = 0;
    while i < efectos.len()
        invariant
            i <= efectos@.len(),
            efectos@.len() <= u64::MAX,
            c == cuenta_efecto(efectos@.subrange(0, i as int), Efecto::Crea),
            a == cuenta_efecto(efectos@.subrange(0, i as int), Efecto::Actualiza),
            n == cuenta_efecto(efectos@.subrange(0, i as int), Efecto::SinCambio),
        decreases efectos.len() - i,
    {
        let ghost sub = efectos@.subrange(0, i + 1);
        assert(sub.drop_last() =~= efectos@.subrange(0, i as int));
        proof {
            lema_cuentas_suman(efectos@.subrange(0, i as int));
        }
        match efectos[i] {
            Efecto::Crea => c += 1,
            Efecto::Actualiza => a += 1,
            Efecto::SinCambio => n += 1,
        }
        i += 1;
    }
    assert(efectos@.subrange(0, i as int) =~= efectos@);
    proof {
        lema_cuentas_suman(efectos@);
    }
    (c, a, n)
}

} // verus!
