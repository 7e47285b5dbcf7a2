//! Expansión recursiva de fórmulas y orden de recálculo.
//!
//! Cuando una fórmula nombra a OTRO campo calculado, ese nombre se sustituye
//! por `(su fórmula)`, recursivamente, antes de compilar: el árbol final solo
//! ve campos de datos y constantes. Tras una pasada con sustituciones la
//! expresión resultante se vuelve a revisar, hasta que no cambia. Los ciclos
//! se detectan con la lista de claves en expansión en la rama actual y con un
//! límite de profundidad, y dan [`MicError::CicloCalculo`].

use vstd::prelude::*;
use vstd::string::*;
use crate::calc::lexer::{
    lexear, mensaje_token_invalido, normaliza_nombre, normalizado, textos_unidos, tokenizar, vista_tokens,
    TipoToken,
};
use crate::calc::sintaxis::{compilacion, compilar, vista_compilado, Ast, AstSpec};
use crate::error::{MicError, MicErrorSpec};
use crate::model::{CampoDef, TipoCampo};
use crate::texto::{caracteres, concatenar3, en_mayusculas, iguales, mayusculas, recortado, recortar};

verus! {

/// Profundidad máxima de expansión (protección ante ciclos).
pub const PROFUNDIDAD_MAX: usize = 64;

/// Índice de los campos calculados: clave (nombre normalizado en mayúsculas)
/// → (nombre normalizado, fórmula).
pub type IndiceSpec = Map<Seq<char>, (Seq<char>, Seq<char>)>;

/// Tokens de una fórmula como `(texto, tipo)`.
pub type TokensSpec = Seq<(Seq<char>, TipoToken)>;

/// Clave de búsqueda de un nombre: normalizado y en mayúsculas ASCII.
pub open spec fn clave_de(nombre: Seq<char>) -> Seq<char> {
    mayusculas(normalizado(nombre))
}

/// La fórmula de un campo, o el texto vacío si no tiene.
pub open spec fn formula_de(f: Option<String>) -> Seq<char> {
    match f {
        Some(s) => s@,
        None => Seq::empty(),
    }
}

/// El índice de los calculados de `campos`: cada campo calculado, en orden,
/// registra su clave; uno posterior con la misma clave reemplaza al anterior.
pub open spec fn indice_spec(campos: Seq<CampoDef>) -> IndiceSpec
    decreases campos.len(),
{
    if campos.len() == 0 {
        Map::empty()
    } else {
        let c = campos.last();
        let previo = indice_spec(campos.drop_last());
        if c.tipo == TipoCampo::Calculado {
            previo.insert(clave_de(c.nombre@), (normalizado(c.nombre@), formula_de(c.formula)))
        } else {
            previo
        }
    }
}

pub open spec fn msg_profundidad(propio: Seq<char>) -> Seq<char> {
    "profundidad de expansión excedida (posible ciclo) en '"@ + propio + "'"@
}

pub open spec fn msg_circular(norm: Seq<char>) -> Seq<char> {
    "el campo calculado '"@ + norm + "' participa en una dependencia circular"@
}

/// El token `i` es un nombre de campo (no el nombre de una función, que
/// sigue a `@`).
pub open spec fn es_referencia(toks: TokensSpec, i: int, anterior: Option<TipoToken>) -> bool {
    toks[i].1 == TipoToken::Nombre && anterior != Some(TipoToken::IniciaFuncion)
}

/// Expansión de la fórmula `s` del campo `propio`, con las claves `visit` en
/// expansión en la rama actual y a profundidad `prof`.
pub open spec fn expandir_s(
    s: Seq<char>,
    propio: Seq<char>,
    ix: IndiceSpec,
    visit: Seq<Seq<char>>,
    prof: nat,
) -> Result<Seq<char>, MicErrorSpec>
    decreases 65 - prof, 1nat, 0int,
{
    if prof > 64 {
        Err(MicErrorSpec::CicloCalculo(msg_profundidad(propio)))
    } else {
        match lexear(s, 0) {
            Err(tok) => Err(
                MicErrorSpec::Calc(propio, "dato inválido: "@ + mensaje_token_invalido(tok)),
            ),
            Ok(toks) => match sustituir_s(
                toks,
                0,
                None,
                mayusculas(propio),
                ix,
                visit,
                prof,
                Seq::empty(),
                false,
            ) {
                Err(e) => Err(e),
                Ok((salida, modifico)) => if modifico {
                    expandir_s(salida, propio, ix, visit, prof + 1)
                } else {
                    Ok(salida)
                },
            },
        }
    }
}

/// Una pasada de sustitución sobre los tokens desde `i`: cada referencia a
/// otro calculado (que no sea el propio campo) se reemplaza por
/// `(su expansión)`; los demás tokens se copian. Devuelve el texto y si hubo
/// alguna sustitución.
pub open spec fn sustituir_s(
    toks: TokensSpec,
    i: int,
    anterior: Option<TipoToken>,
    propio_may: Seq<char>,
    ix: IndiceSpec,
    visit: Seq<Seq<char>>,
    prof: nat,
    salida: Seq<char>,
    modifico: bool,
) -> Result<(Seq<char>, bool), MicErrorSpec>
    decreases 65 - prof, 0nat, toks.len() - i,
{
    if i < 0 || i >= toks.len() || prof > 64 {
        Ok((salida, modifico))
    } else {
        let texto = toks[i].0;
        let clave = clave_de(texto);
        if es_referencia(toks, i, anterior) && clave != propio_may && ix.dom().contains(clave) {
            let norm = ix[clave].0;
            let formula = ix[clave].1;
            if visit.contains(clave) {
                Err(MicErrorSpec::CicloCalculo(msg_circular(norm)))
            } else {
                match expandir_s(formula, norm, ix, visit.push(clave), prof + 1) {
                    Err(e) => Err(e),
                    Ok(interna) => sustituir_s(
                        toks,
                        i + 1,
                        Some(toks[i].1),
                        propio_may,
                        ix,
                        visit,
                        prof,
                        salida + seq!['('] + interna + seq![')'],
                        true,
                    ),
                }
            }
        } else {
            sustituir_s(
                toks,
                i + 1,
                Some(toks[i].1),
                propio_may,
                ix,
                visit,
                prof,
                salida + texto,
                modifico,
            )
        }
    }
}

/// Entrada del índice de campos calculados.
pub struct CampoCalc {
    /// Nombre normalizado en mayúsculas: la clave de búsqueda.
    pub clave: Vec<char>,
    /// Nombre normalizado (con `_`).
    pub nombre_norm: String,
    /// Fórmula tal como la escribió el usuario.
    pub formula: String,
}

/// El índice que representa una lista de entradas: cada entrada registra su
/// clave, y una posterior con la misma clave reemplaza a la anterior.
pub open spec fn mapa_indice(v: Seq<CampoCalc>) -> IndiceSpec
    decreases v.len(),
{
    if v.len() == 0 {
        Map::empty()
    } else {
        mapa_indice(v.drop_last()).insert(
            v.last().clave@,
            (v.last().nombre_norm@, v.last().formula@),
        )
    }
}

/// Las claves de una lista de claves.
pub open spec fn claves(v: Seq<Vec<char>>) -> Seq<Seq<char>> {
    v.map_values(|x: Vec<char>| x@)
}

proof fn lema_mapa_ultimo(v: Seq<CampoCalc>, i: int, k: Seq<char>)
    requires
        0 <= i < v.len(),
        v[i].clave@ == k,
        forall|j: int| i < j < v.len() ==> (#[trigger] v[j]).clave@ != k,
    ensures
        mapa_indice(v).dom().contains(k),
        mapa_indice(v)[k] == (v[i].nombre_norm@, v[i].formula@),
    decreases v.len(),
{
    if i < v.len() - 1 {
        assert(v.drop_last()[i] == v[i]);
        assert forall|j: int| i < j < v.drop_last().len() implies (#[trigger] v.drop_last()[j]).clave@
            != k by {
            assert(v.drop_last()[j] == v[j]);
        }
        lema_mapa_ultimo(v.drop_last(), i, k);
        assert(v[v.len() - 1].clave@ != k);
    }
}

proof fn lema_mapa_ausente(v: Seq<CampoCalc>, k: Seq<char>)
    requires
        forall|j: int| 0 <= j < v.len() ==> (#[trigger] v[j]).clave@ != k,
    ensures
        !mapa_indice(v).dom().contains(k),
    decreases v.len(),
{
    if v.len() > 0 {
        assert forall|j: int| 0 <= j < v.drop_last().len() implies (#[trigger] v.drop_last()[j]).clave@
            != k by {
            assert(v.drop_last()[j] == v[j]);
        }
        lema_mapa_ausente(v.drop_last(), k);
        assert(v[v.len() - 1].clave@ != k);
    }
}

/// Construye el índice de los campos calculados de `campos`.
pub fn indexar_calculados(campos: &[CampoDef]) -> (r: Vec<CampoCalc>)
    ensures
        mapa_indice(r@) == indice_spec(campos@),
{
    let mut r: Vec<CampoCalc> = Vec::new();
    let mut i: usize = 0;
    while i < campos.len()
        invariant
            i <= campos.len(),
            mapa_indice(r@) == indice_spec(campos@.subrange(0, i as int)),
        decreases campos.len() - i,
    {
        let campo = &campos[i];
        let ghost previo = r@;
        if campo.tipo == TipoCampo::Calculado {
            let norm = normaliza_nombre(campo.nombre.as_str());
            let clave = en_mayusculas(&caracteres(norm.as_str()));
            let formula = match &campo.formula {
                Some(f) => f.clone(),
                None => String::new(),
            };
            r.push(CampoCalc { clave, nombre_norm: norm, formula });
            assert(r@.drop_last() =~= previo);
        }
        assert(campos@.subrange(0, i + 1).drop_last() =~= campos@.subrange(0, i as int));
        i += 1;
    }
    assert(campos@.subrange(0, campos.len() as int) =~= campos@);
    r
}

/// Posición de la entrada de clave `k` que rige en el índice (la última con
/// esa clave), si hay alguna.
fn buscar(ix: &Vec<CampoCalc>, k: &Vec<char>) -> (r: Option<usize>)
    ensures
        match r {
            Some(i) => i < ix.len() && mapa_indice(ix@).dom().contains(k@) && mapa_indice(ix@)[k@]
                == (ix@[i as int].nombre_norm@, ix@[i as int].formula@),
            None => !mapa_indice(ix@).dom().contains(k@),
        },
{
    let mut j: usize = ix.len();
    while j > 0
        invariant
            j <= ix.len(),
            forall|m: int| j <= m < ix.len() ==> (#[trigger] ix@[m]).clave@ != k@,
        decreases j,
    {
        j -= 1;
        if iguales(&ix[j].clave, k) {
            proof {
                lema_mapa_ultimo(ix@, j as int, k@);
            }
            return Some(j);
        }
    }
    proof {
        lema_mapa_ausente(ix@, k@);
    }
    None
}

/// `true` si la clave `k` está en la lista `v`.
fn contiene(v: &Vec<Vec<char>>, k: &Vec<char>) -> (r: bool)
    ensures
        r == claves(v@).contains(k@),
{
    let mut j: usize = 0;
    while j < v.len()
        invariant
            j <= v.len(),
            forall|m: int| 0 <= m < j ==> (#[trigger] v@[m])@ != k@,
        decreases v.len() - j,
    {
        if iguales(&v[j], k) {
            assert(claves(v@)[j as int] == k@);
            return true;
        }
        j += 1;
    }
    assert forall|m: int| 0 <= m < claves(v@).len() implies #[trigger] claves(v@)[m] != k@ by {
        assert(claves(v@)[m] == v@[m]@);
    }
    false
}

/// Vista de un resultado de expansión.
pub open spec fn vista_texto(r: Result<String, MicError>) -> Result<Seq<char>, MicErrorSpec> {
    match r {
        Ok(s) => Ok(s@),
        Err(e) => Err(e@),
    }
}

/// Expande en `sexpr` las referencias a otros campos calculados por
/// `(su fórmula)`, recursivamente: omite el propio campo (`nombre_propio`) y
/// los nombres de función (tras `@`), y repite mientras haya cambios.
/// `visitados` lleva las claves en expansión en la rama actual (para detectar
/// ciclos) y queda como estaba si la expansión tiene éxito.
pub fn expandir(
    sexpr: &str,
    nombre_propio: &str,
    calculados: &Vec<CampoCalc>,
    visitados: &mut Vec<Vec<char>>,
    profundidad: usize,
) -> (r: Result<String, MicError>)
    ensures
        vista_texto(r) == expandir_s(
            sexpr@,
            nombre_propio@,
            mapa_indice(calculados@),
            claves(old(visitados)@),
            profundidad as nat,
        ),
        r is Ok ==> claves(final(visitados)@) == claves(old(visitados)@),
    decreases 65 - profundidad,
{
    let ghost ix = mapa_indice(calculados@);
    let ghost v0 = claves(visitados@);
    if profundidad > PROFUNDIDAD_MAX {
        return Err(
            MicError::CicloCalculo(
                concatenar3(
                    "profundidad de expansión excedida (posible ciclo) en '",
                    nombre_propio,
                    "'",
                ),
            ),
        );
    }
    let tokens = match tokenizar(sexpr) {
        Ok(t) => t,
        Err(e) => {
            return Err(MicError::Calc { campo: String::from_str(nombre_propio), detalle: e.mensaje() });
        },
    };
    let ghost toks = vista_tokens(tokens@);
    let propio_may = en_mayusculas(&caracteres(nombre_propio));
    let ghost total = sustituir_s(
        toks,
        0,
        None,
        propio_may@,
        ix,
        v0,
        profundidad as nat,
        Seq::empty(),
        false,
    );
    let mut salida = String::new();
    let mut modifico = false;
    let mut anterior: Option<TipoToken> = None;
    let mut i: usize = 0;
    assert(salida@ =~= Seq::<char>::empty());
    while i < tokens.len()
        invariant
            i <= tokens.len(),
            profundidad <= 64,
            toks == vista_tokens(tokens@),
            toks.len() == tokens.len(),
            ix == mapa_indice(calculados@),
            propio_may@ == mayusculas(nombre_propio@),
            claves(visitados@) == v0,
            v0 == claves(old(visitados)@),
            lexear(sexpr@, 0) == Ok::<TokensSpec, Seq<char>>(toks),
            total == sustituir_s(
                toks,
                0,
                None,
                propio_may@,
                ix,
                v0,
                profundidad as nat,
                Seq::empty(),
                false,
            ),
            total == sustituir_s(
                toks,
                i as int,
                anterior,
                propio_may@,
                ix,
                v0,
                profundidad as nat,
                salida@,
                modifico,
            ),
        decreases tokens.len() - i,
    {
        let token = &tokens[i];
        assert(toks[i as int] == (token.texto@, token.tipo));
        let ghost sal0 = salida@;
        let ghost mod0 = modifico;
        let ghost ant0 = anterior;
        let tras_arroba = match anterior {
            Some(TipoToken::IniciaFuncion) => true,
            _ => false,
        };
        let mut sustituyo = false;
        if token.tipo == TipoToken::Nombre && !tras_arroba {
            let norm = normaliza_nombre(token.texto.as_str());
            let clave = en_mayusculas(&caracteres(norm.as_str()));
            if !iguales(&clave, &propio_may) {
                match buscar(calculados, &clave) {
                    Some(k) => {
                        let calc = &calculados[k];
                        proof {
                            assert(es_referencia(toks, i as int, anterior));
                            assert(clave_de(toks[i as int].0) == clave@);
                            assert(ix[clave@] == (calc.nombre_norm@, calc.formula@));
                        }
                        if contiene(visitados, &clave) {
                            proof {
                                assert(total == Err::<(Seq<char>, bool), MicErrorSpec>(
                                    MicErrorSpec::CicloCalculo(msg_circular(calc.nombre_norm@)),
                                ));
                            }
                            return Err(
                                MicError::CicloCalculo(
                                    concatenar3(
                                        "el campo calculado '",
                                        calc.nombre_norm.as_str(),
                                        "' participa en una dependencia circular",
                                    ),
                                ),
                            );
                        }
                        let ghost kv = clave@;
                        visitados.push(clave);
                        assert(claves(visitados@) =~= v0.push(kv));
                        let interna = expandir(
                            calc.formula.as_str(),
                            calc.nombre_norm.as_str(),
                            calculados,
                            visitados,
                            profundidad + 1,
                        );
                        match interna {
                            Err(e) => {
                                proof {
                                    assert(total == Err::<(Seq<char>, bool), MicErrorSpec>(e@));
                                }
                                return Err(e);
                            },
                            Ok(s) => {
                                let ghost antes = visitados@;
                                visitados.pop();
                                assert(claves(visitados@) =~= claves(antes).drop_last());
                                salida.append("(");
                                salida.append(s.as_str());
                                salida.append(")");
                                proof {
                                    reveal_strlit("(");
                                    reveal_strlit(")");
                                    assert(salida@ =~= sal0 + seq!['('] + s@ + seq![')']);
                                    assert(sustituir_s(toks, i as int, ant0, propio_may@, ix, v0,
                                        profundidad as nat, sal0, mod0) == sustituir_s(toks, i + 1,
                                        Some(token.tipo), propio_may@, ix, v0, profundidad as nat,
                                        salida@, true));
                                }
                                sustituyo = true;
                                modifico = true;
                            },
                        }
                    },
                    None => {},
                }
            }
        }
        if !sustituyo {
            salida.append(token.texto.as_str());
            proof {
                assert(sustituir_s(toks, i as int, ant0, propio_may@, ix, v0, profundidad as nat,
                    sal0, mod0) == sustituir_s(toks, i + 1, Some(token.tipo), propio_may@, ix, v0,
                    profundidad as nat, salida@, mod0));
            }
        }
        anterior = Some(token.tipo);
        i += 1;
    }
    if modifico {
        expandir(salida.as_str(), nombre_propio, calculados, visitados, profundidad + 1)
    } else {
        Ok(salida)
    }
}

/// Vista del resultado de compilar una fórmula.
pub open spec fn vista_ast_res(r: Result<Ast, MicError>) -> Result<AstSpec, MicErrorSpec> {
    match r {
        Ok(a) => Ok(a@),
        Err(e) => Err(e@),
    }
}

/// Nombre propio que se usa al expandir una fórmula suelta (no colisiona con
/// ningún campo).
pub open spec fn propio_libre() -> Seq<char> {
    "\u{0}<libre>"@
}

/// Lo que da compilar la fórmula suelta `f` con los campos `campos`.
pub open spec fn compilacion_una(campos: Seq<CampoDef>, f: Seq<char>) -> Result<AstSpec, MicErrorSpec> {
    match expandir_s(f, propio_libre(), indice_spec(campos), Seq::empty(), 0) {
        Err(e) => Err(e),
        Ok(x) => match compilacion(x) {
            Err(d) => Err(MicErrorSpec::Calc("<fórmula>"@, d)),
            Ok(a) => Ok(a),
        },
    }
}

/// Compila una fórmula suelta (editor de fórmulas), expandiendo las
/// referencias a los campos calculados existentes.
pub fn compilar_una(campos: &[CampoDef], formula: &str) -> (r: Result<Ast, MicError>)
    ensures
        vista_ast_res(r) == compilacion_una(campos@, formula@),
{
    let calculados = indexar_calculados(campos);
    let mut visitados: Vec<Vec<char>> = Vec::new();
    assert(claves(visitados@) =~= Seq::<Seq<char>>::empty());
    let expandida = match expandir(formula, "\u{0}<libre>", &calculados, &mut visitados, 0) {
        Ok(x) => x,
        Err(e) => {
            return Err(e);
        },
    };
    match compilar(expandida.as_str()) {
        Ok(a) => Ok(a),
        Err(detalle) => Err(MicError::Calc { campo: String::from_str("<fórmula>"), detalle }),
    }
}


// ---------------------------------------------------------------------------
// Orden de recálculo
// ---------------------------------------------------------------------------

/// `a` depende de `b` en el grafo `g` (listas de dependencias por nodo).
pub open spec fn arista(g: Seq<Seq<int>>, a: int, b: int) -> bool {
    0 <= a < g.len() && g[a].contains(b)
}

/// Todas las dependencias apuntan a nodos del grafo.
pub open spec fn grafo_valido(g: Seq<Seq<int>>) -> bool {
    forall|a: int, j: int|
        0 <= a < g.len() && 0 <= j < g[a].len() ==> 0 <= #[trigger] g[a][j] < g.len()
}

/// `c` es un ciclo de dependencias: un camino que vuelve a su inicio.
pub open spec fn es_ciclo(g: Seq<Seq<int>>, c: Seq<int>) -> bool {
    &&& c.len() >= 2
    &&& c[0] == c.last()
    &&& forall|k: int| 0 <= k < c.len() - 1 ==> #[trigger] arista(g, c[k], c[k + 1])
}

/// El grafo tiene algún ciclo de dependencias.
pub open spec fn hay_ciclo(g: Seq<Seq<int>>) -> bool {
    exists|c: Seq<int>| es_ciclo(g, c)
}

/// `o` es un orden de recálculo de `g`: cada nodo aparece exactamente una
/// vez, y cada nodo va después de todos los nodos de los que depende.
pub open spec fn orden_valido(g: Seq<Seq<int>>, o: Seq<int>) -> bool {
    &&& o.no_duplicates()
    &&& forall|p: int| 0 <= p < o.len() ==> 0 <= #[trigger] o[p] < g.len()
    &&& forall|k: int| 0 <= k < g.len() ==> #[trigger] o.contains(k)
    &&& forall|p: int, q: int|
        0 <= p < o.len() && 0 <= q < o.len() && #[trigger] arista(g, o[q], o[p]) ==> p < q
}

proof fn lema_baja(c: Seq<int>, pos: spec_fn(int) -> int, m: int)
    requires
        1 <= m < c.len(),
        forall|k: int| 0 <= k < c.len() - 1 ==> #[trigger] pos(c[k + 1]) < pos(c[k]),
    ensures
        pos(c[m]) < pos(c[0]),
    decreases m,
{
    if m > 1 {
        lema_baja(c, pos, m - 1);
        assert(pos(c[(m - 1) + 1]) < pos(c[m - 1]));
    } else {
        assert(pos(c[0int + 1]) < pos(c[0int]));
    }
}

/// En un grafo con un orden de recálculo válido no hay ciclos: a lo largo de
/// un ciclo las posiciones en el orden bajarían siempre.
pub proof fn lema_orden_sin_ciclo(g: Seq<Seq<int>>, o: Seq<int>)
    requires
        grafo_valido(g),
        orden_valido(g, o),
    ensures
        !hay_ciclo(g),
{
    if hay_ciclo(g) {
        let c = choose|c: Seq<int>| es_ciclo(g, c);
        let pos = |x: int| o.index_of(x);
        assert forall|k: int| 0 <= k < c.len() - 1 implies #[trigger] pos(c[k + 1]) < pos(c[k]) by {
            assert(arista(g, c[k], c[k + 1]));
            let j = choose|j: int| 0 <= j < g[c[k]].len() && g[c[k]][j] == c[k + 1];
            assert(0 <= g[c[k]][j] < g.len());
            assert(o.contains(c[k]));
            assert(o.contains(c[k + 1]));
            let q = o.index_of(c[k]);
            let p = o.index_of(c[k + 1]);
            assert(o[q] == c[k] && o[p] == c[k + 1]);
            assert(arista(g, o[q], o[p]));
        }
        lema_baja(c, pos, c.len() - 1);
    }
}

/// Cantidad de nodos blancos (sin visitar) en un vector de colores.
pub open spec fn blancos(c: Seq<u8>) -> nat
    decreases c.len(),
{
    if c.len() == 0 {
        0
    } else {
        blancos(c.drop_last()) + if c.last() == 0 {
            1nat
        } else {
            0nat
        }
    }
}

proof fn lema_blancos_update(c: Seq<u8>, i: int, v: u8)
    requires
        0 <= i < c.len(),
    ensures
        blancos(c.update(i, v)) + (if c[i] == 0 {
            1int
        } else {
            0int
        }) == blancos(c) + (if v == 0 {
            1int
        } else {
            0int
        }),
    decreases c.len(),
{
    if i < c.len() - 1 {
        assert(c.update(i, v).drop_last() =~= c.drop_last().update(i, v));
        lema_blancos_update(c.drop_last(), i, v);
    } else {
        assert(c.update(i, v).drop_last() =~= c.drop_last());
    }
}

/// Estado del recorrido en profundidad: colores (0 sin visitar, 1 en curso,
/// 2 terminado), la pila de nodos en curso (cada uno depende del siguiente)
/// y el orden de los terminados (cada uno tras sus dependencias).
pub open spec fn estado_dfs(g: Seq<Seq<int>>, color: Seq<u8>, orden: Seq<usize>, pila: Seq<int>) -> bool {
    &&& color.len() == g.len()
    &&& forall|k: int| 0 <= k < color.len() ==> #[trigger] color[k] <= 2
    &&& forall|k: int| 0 <= k < color.len() ==> (#[trigger] color[k] == 1 <==> pila.contains(k))
    &&& pila.no_duplicates()
    &&& forall|j: int| 0 <= j < pila.len() ==> 0 <= #[trigger] pila[j] < g.len()
    &&& forall|j: int| 0 <= j < pila.len() - 1 ==> #[trigger] arista(g, pila[j], pila[j + 1])
    &&& forall|k: int| 0 <= k < color.len() ==> (#[trigger] color[k] == 2 <==> vista_orden(orden).contains(k))
    &&& vista_orden(orden).no_duplicates()
    &&& forall|p: int| 0 <= p < orden.len() ==> (#[trigger] orden[p]) < g.len()
    &&& forall|q: int, d: int|
        0 <= q < orden.len() && #[trigger] arista(g, orden[q] as int, d) ==> exists|p: int|
            0 <= p < q && #[trigger] orden[p] == d
}

/// Un orden de nodos como enteros.
pub open spec fn vista_orden(o: Seq<usize>) -> Seq<int> {
    o.map_values(|x: usize| x as int)
}

/// Vista de un grafo de dependencias.
pub open spec fn vista_grafo(g: Seq<Vec<usize>>) -> Seq<Seq<int>> {
    g.map_values(|d: Vec<usize>| d@.map_values(|x: usize| x as int))
}

/// Visita en profundidad el nodo `n`: primero sus dependencias, luego él.
/// Devuelve el nodo en curso encontrado de nuevo si hay un ciclo.
/// Un paso del recorrido en profundidad desde el nodo `n`, con colores `c`
/// (0 sin visitar, 1 en curso, 2 terminado) y orden `o`: un nodo terminado
/// no cambia nada; uno en curso cierra un ciclo (se devuelve ese nodo); uno
/// sin visitar se marca en curso, se recorren sus dependencias en el orden de
/// su lista y se añade al orden. `f` acota la profundidad.
pub open spec fn dfs_nodo(g: Seq<Seq<int>>, c: Seq<u8>, o: Seq<int>, n: int, f: nat) -> Result<(Seq<u8>, Seq<int>), int>
    decreases f, 0int, 0int,
{
    if f == 0 {
        Err(n)
    } else if c[n] == 2 {
        Ok((c, o))
    } else if c[n] == 1 {
        Err(n)
    } else {
        match dfs_hijos(g, c.update(n, 1), o, g[n], 0, (f - 1) as nat) {
            Ok((c2, o2)) => Ok((c2.update(n, 2), o2.push(n))),
            Err(m) => Err(m),
        }
    }
}

/// Recorrido de las dependencias `hs` a partir de la `i`-ésima.
pub open spec fn dfs_hijos(g: Seq<Seq<int>>, c: Seq<u8>, o: Seq<int>, hs: Seq<int>, i: int, f: nat) -> Result<(Seq<u8>, Seq<int>), int>
    decreases f, 1int, hs.len() - i,
{
    if i < 0 || i >= hs.len() {
        Ok((c, o))
    } else {
        match dfs_nodo(g, c, o, hs[i], f) {
            Ok((c2, o2)) => dfs_hijos(g, c2, o2, hs, i + 1, f),
            Err(m) => Err(m),
        }
    }
}

/// Recorrido desde cada nodo a partir del `k`-ésimo, en orden.
pub open spec fn dfs_todos(g: Seq<Seq<int>>, c: Seq<u8>, o: Seq<int>, k: int, f: nat) -> Result<(Seq<u8>, Seq<int>), int>
    decreases g.len() - k,
{
    if k < 0 || k >= g.len() {
        Ok((c, o))
    } else {
        match dfs_nodo(g, c, o, k, f) {
            Ok((c2, o2)) => dfs_todos(g, c2, o2, k + 1, f),
            Err(m) => Err(m),
        }
    }
}

/// El recorrido en profundidad de todo el grafo, desde cada nodo en orden:
/// el orden en que terminan los nodos, o el nodo en curso donde se cerró el
/// primer ciclo encontrado.
pub open spec fn recorrido_dfs(g: Seq<Seq<int>>) -> Result<(Seq<u8>, Seq<int>), int> {
    dfs_todos(g, Seq::new(g.len(), |k: int| 0u8), Seq::empty(), 0, (g.len() + 1) as nat)
}

proof fn lema_blancos_cota(c: Seq<u8>)
    ensures
        blancos(c) <= c.len(),
    decreases c.len(),
{
    if c.len() > 0 {
        lema_blancos_cota(c.drop_last());
    }
}

fn visitar(
    g: &Vec<Vec<usize>>,
    n: usize,
    color: &mut Vec<u8>,
    orden: &mut Vec<usize>,
    Ghost(pila): Ghost<Seq<int>>,
    Ghost(f): Ghost<nat>,
) -> (r: Result<(), usize>)
    requires
        grafo_valido(vista_grafo(g@)),
        n < g.len(),
        estado_dfs(vista_grafo(g@), old(color)@, old(orden)@, pila),
        pila.len() > 0 ==> arista(vista_grafo(g@), pila.last(), n as int),
        f > blancos(old(color)@),
    ensures
        dfs_nodo(vista_grafo(g@), old(color)@, vista_orden(old(orden)@), n as int, f) == match r {
            Ok(_) => Ok((final(color)@, vista_orden(final(orden)@))),
            Err(m) => Err::<(Seq<u8>, Seq<int>), int>(m as int),
        },
        r is Ok ==> {
            &&& estado_dfs(vista_grafo(g@), final(color)@, final(orden)@, pila)
            &&& final(color)@[n as int] == 2
            &&& forall|k: int| 0 <= k < g.len() && old(color)@[k] == 2 ==> #[trigger] final(color)@[k] == 2
            &&& blancos(final(color)@) <= blancos(old(color)@)
        },
        r is Err ==> hay_ciclo(vista_grafo(g@)),
        r matches Err(m) ==> m < g.len(),
    decreases blancos(old(color)@),
{
    let ghost gs = vista_grafo(g@);
    if color[n] == 2 {
        return Ok(());
    }
    if color[n] == 1 {
        proof {
            assert(pila.contains(n as int));
            let j = choose|j: int| 0 <= j < pila.len() && pila[j] == n as int;
            let c = pila.subrange(j, pila.len() as int).push(n as int);
            assert forall|k: int| 0 <= k < c.len() - 1 implies #[trigger] arista(gs, c[k], c[k + 1]) by {
                if k < c.len() - 2 {
                    assert(c[k] == pila[j + k] && c[k + 1] == pila[j + k + 1]);
                    assert(arista(gs, pila[j + k], pila[j + k + 1]));
                } else {
                    assert(c[k] == pila.last());
                }
            }
            assert(es_ciclo(gs, c));
        }
        return Err(n);
    }
    let ghost c0 = color@;
    let ghost o0 = orden@;
    proof {
        lema_blancos_update(color@, n as int, 1);
    }
    color.set(n, 1);
    let ghost pila2 = pila.push(n as int);
    assert(estado_dfs(gs, color@, orden@, pila2)) by {
        assert forall|k: int| 0 <= k < color@.len() implies (#[trigger] color@[k] == 1 <==> pila2.contains(k)) by {
            if k == n {
                assert(pila2[pila.len() as int] == k);
            } else {
                if pila2.contains(k) {
                    let j = choose|j: int| 0 <= j < pila2.len() && pila2[j] == k;
                    assert(j < pila.len());
                    assert(pila.contains(k));
                }
                if pila.contains(k) {
                    let j = choose|j: int| 0 <= j < pila.len() && pila[j] == k;
                    assert(pila2[j] == k);
                }
            }
        }
        assert(!pila.contains(n as int));
        assert forall|j: int| 0 <= j < pila2.len() - 1 implies #[trigger] arista(gs, pila2[j], pila2[j + 1]) by {
            if j < pila.len() - 1 {
                assert(arista(gs, pila[j], pila[j + 1]));
            }
        }
    }
    let hijos = &g[n];
    let mut j: usize = 0;
    while j < hijos.len()
        invariant
            grafo_valido(gs),
            gs == vista_grafo(g@),
            hijos == g@[n as int],
            n < g.len(),
            j <= hijos.len(),
            estado_dfs(gs, color@, orden@, pila2),
            pila2 == pila.push(n as int),
            color@[n as int] == 1,
            forall|i: int| 0 <= i < j ==> color@[#[trigger] hijos@[i] as int] == 2,
            forall|k: int| 0 <= k < g.len() && c0[k] == 2 ==> #[trigger] color@[k] == 2,
            blancos(color@) < blancos(c0),
            c0 == old(color)@,
            c0.len() == g.len(),
            c0[n as int] == 0,
            o0 == old(orden)@,
            f > blancos(c0),
            dfs_hijos(gs, c0.update(n as int, 1), vista_orden(o0), gs[n as int], 0, (f - 1) as nat)
                == dfs_hijos(gs, color@, vista_orden(orden@), gs[n as int], j as int, (f - 1) as nat),
        decreases hijos.len() - j,
    {
        let c = hijos[j];
        assert(gs[n as int][j as int] == c as int);
        assert(arista(gs, pila2.last(), c as int));
        let ghost antes = color@;
        let ghost antes_o = vista_orden(orden@);
        match visitar(g, c, color, orden, Ghost(pila2), Ghost((f - 1) as nat)) {
            Ok(()) => {},
            Err(m) => {
                proof {
                    assert(dfs_hijos(gs, antes, antes_o, gs[n as int], j as int, (f - 1) as nat)
                        == Err::<(Seq<u8>, Seq<int>), int>(m as int));
                }
                return Err(m);
            },
        }
        proof {
            assert forall|i: int| 0 <= i < j + 1 implies color@[#[trigger] hijos@[i] as int] == 2 by {
                assert(gs[n as int][i] == hijos@[i] as int);
                assert(0 <= gs[n as int][i] < gs.len());
                if i < j {
                    assert(antes[hijos@[i] as int] == 2);
                }
            }
        }
        j += 1;
    }
    let ghost c1 = color@;
    let ghost o1 = orden@;
    proof {
        lema_blancos_update(color@, n as int, 2);
    }
    color.set(n, 2);
    orden.push(n);
    proof {
        assert(vista_orden(orden@) =~= vista_orden(o1).push(n as int));
        assert(!vista_orden(o1).contains(n as int));
        assert forall|q: int, d: int|
            0 <= q < orden@.len() && #[trigger] arista(gs, orden@[q] as int, d) implies exists|p: int|
                0 <= p < q && #[trigger] orden@[p] == d by {
            if q < o1.len() {
                let p = choose|p: int| 0 <= p < q && #[trigger] o1[p] == d;
                assert(orden@[p] == d);
            } else {
                let i = choose|i: int| 0 <= i < gs[n as int].len() && gs[n as int][i] == d;
                assert(hijos@[i] as int == d);
                assert(c1[d] == 2);
                assert(vista_orden(o1).contains(d));
                let p = choose|p: int| 0 <= p < o1.len() && vista_orden(o1)[p] == d;
                assert(orden@[p] == d);
            }
        }
        assert forall|k: int| 0 <= k < color@.len() implies (#[trigger] color@[k] == 1 <==> pila.contains(k)) by {
            if k != n {
                assert(c1[k] == 1 <==> pila2.contains(k));
                if pila2.contains(k) {
                    let i = choose|i: int| 0 <= i < pila2.len() && pila2[i] == k;
                    assert(i < pila.len());
                }
                if pila.contains(k) {
                    let i = choose|i: int| 0 <= i < pila.len() && pila[i] == k;
                    assert(pila2[i] == k);
                }
            } else {
                assert(!pila.contains(k));
            }
        }
        assert forall|k: int| 0 <= k < color@.len() implies (#[trigger] color@[k] == 2 <==> vista_orden(orden@).contains(k)) by {
            if k != n {
                assert(c1[k] == 2 <==> vista_orden(o1).contains(k));
                if vista_orden(orden@).contains(k) {
                    let i = choose|i: int| 0 <= i < vista_orden(orden@).len() && vista_orden(orden@)[i] == k;
                    assert(i < o1.len());
                    assert(vista_orden(o1)[i] == k);
                }
                if vista_orden(o1).contains(k) {
                    let i = choose|i: int| 0 <= i < vista_orden(o1).len() && vista_orden(o1)[i] == k;
                    assert(vista_orden(orden@)[i] == k);
                }
            } else {
                assert(vista_orden(orden@)[o1.len() as int] == k);
            }
        }
    }
    Ok(())
}

/// Orden de recálculo del grafo `g` por recorrido en profundidad, visitando
/// los nodos en orden y las dependencias de cada uno en el orden de su
/// lista. Si encuentra un ciclo devuelve el nodo en el que lo detectó.
fn ordenar(g: &Vec<Vec<usize>>) -> (r: Result<Vec<usize>, usize>)
    requires
        grafo_valido(vista_grafo(g@)),
    ensures
        r matches Ok(o) ==> orden_valido(vista_grafo(g@), vista_orden(o@)),
        r is Err ==> hay_ciclo(vista_grafo(g@)),
        r matches Err(m) ==> m < g.len(),
        r is Ok <==> !hay_ciclo(vista_grafo(g@)),
        match (r, recorrido_dfs(vista_grafo(g@))) {
            (Ok(o), Ok((_, os))) => vista_orden(o@) == os,
            (Err(m), Err(x)) => m as int == x,
            _ => false,
        },
{
    let ghost gs = vista_grafo(g@);
    let mut color: Vec<u8> = Vec::new();
    let mut i: usize = 0;
    while i < g.len()
        invariant
            i <= g.len(),
            color@.len() == i,
            forall|k: int| 0 <= k < i ==> #[trigger] color@[k] == 0,
        decreases g.len() - i,
    {
        color.push(0);
        i += 1;
    }
    let mut orden: Vec<usize> = Vec::new();
    assert(vista_orden(orden@) =~= Seq::<int>::empty());
    assert(color@ =~= Seq::new(gs.len(), |k: int| 0u8));
    let ghost f: nat = (gs.len() + 1) as nat;
    let mut k: usize = 0;
    while k < g.len()
        invariant
            grafo_valido(gs),
            gs == vista_grafo(g@),
            gs.len() == g.len(),
            k <= g.len(),
            estado_dfs(gs, color@, orden@, Seq::empty()),
            forall|m: int| 0 <= m < k ==> #[trigger] color@[m] == 2,
            f == gs.len() + 1,
            recorrido_dfs(gs) == dfs_todos(gs, color@, vista_orden(orden@), k as int, f),
        decreases g.len() - k,
    {
        proof {
            lema_blancos_cota(color@);
        }
        match visitar(g, k, &mut color, &mut orden, Ghost(Seq::empty()), Ghost(f)) {
            Ok(()) => {},
            Err(m) => {
                return Err(m);
            },
        }
        k += 1;
    }
    proof {
        let o = vista_orden(orden@);
        assert forall|m: int| 0 <= m < gs.len() implies #[trigger] o.contains(m) by {
            assert(color@[m] == 2);
        }
        assert forall|p: int| 0 <= p < o.len() implies 0 <= #[trigger] o[p] < gs.len() by {
            assert(orden@[p] < g.len());
        }
        assert forall|p: int, q: int|
            0 <= p < o.len() && 0 <= q < o.len() && #[trigger] arista(gs, o[q], o[p]) implies p < q by {
            assert(arista(gs, orden@[q] as int, o[p]));
            let p2 = choose|p2: int| 0 <= p2 < q && #[trigger] orden@[p2] == o[p];
            assert(o[p2] == o[p]);
        }
        assert(orden_valido(gs, o));
        lema_orden_sin_ciclo(gs, o);
    }
    Ok(orden)
}


// ---------------------------------------------------------------------------
// Grafo de dependencias entre calculados
// ---------------------------------------------------------------------------

/// Claves distintas de los campos calculados, en orden de primera aparición:
/// los nodos del grafo de dependencias.
pub open spec fn nodos_spec(campos: Seq<CampoDef>) -> Seq<Seq<char>>
    decreases campos.len(),
{
    if campos.len() == 0 {
        Seq::empty()
    } else {
        let previo = nodos_spec(campos.drop_last());
        let c = campos.last();
        if c.tipo == TipoCampo::Calculado && !previo.contains(clave_de(c.nombre@)) {
            previo.push(clave_de(c.nombre@))
        } else {
            previo
        }
    }
}

/// El último campo calculado de clave `k`, si hay alguno.
pub open spec fn ultimo_calc(campos: Seq<CampoDef>, k: Seq<char>) -> Option<CampoDef>
    decreases campos.len(),
{
    if campos.len() == 0 {
        None
    } else {
        let c = campos.last();
        if c.tipo == TipoCampo::Calculado && clave_de(c.nombre@) == k {
            Some(c)
        } else {
            ultimo_calc(campos.drop_last(), k)
        }
    }
}

/// El primer campo calculado cuya fórmula no se puede tokenizar: su nombre y
/// el token inválido.
pub open spec fn primer_fallo(campos: Seq<CampoDef>) -> Option<(Seq<char>, Seq<char>)>
    decreases campos.len(),
{
    if campos.len() == 0 {
        None
    } else {
        let c = campos[0];
        if c.tipo == TipoCampo::Calculado && lexear(formula_de(c.formula), 0) is Err {
            Some((c.nombre@, lexear(formula_de(c.formula), 0)->Err_0))
        } else {
            primer_fallo(campos.drop_first())
        }
    }
}

/// Claves de los calculados que nombra una lista de tokens desde `i` (sin
/// repetir, en orden de primera aparición, sin la propia `propia`), a
/// continuación de `acc`.
pub open spec fn deps_formula(
    toks: TokensSpec,
    i: int,
    anterior: Option<TipoToken>,
    propia: Seq<char>,
    calc: Set<Seq<char>>,
    acc: Seq<Seq<char>>,
) -> Seq<Seq<char>>
    decreases toks.len() - i,
{
    if i < 0 || i >= toks.len() {
        acc
    } else {
        let d = clave_de(toks[i].0);
        let acc2 = if es_referencia(toks, i, anterior) && d != propia && calc.contains(d)
            && !acc.contains(d) {
            acc.push(d)
        } else {
            acc
        };
        deps_formula(toks, i + 1, Some(toks[i].1), propia, calc, acc2)
    }
}

/// Dependencias directas del campo calculado `c`: los calculados (de
/// `calc`) que nombra su fórmula.
pub open spec fn deps_de(c: CampoDef, calc: Set<Seq<char>>) -> Seq<Seq<char>> {
    match lexear(formula_de(c.formula), 0) {
        Ok(toks) => deps_formula(toks, 0, None, clave_de(c.nombre@), calc, Seq::empty()),
        Err(_) => Seq::empty(),
    }
}

/// Grafo de dependencias de los calculados de `campos`: el nodo `k` es la
/// `k`-ésima clave distinta; sus aristas, las dependencias del último campo
/// con esa clave.
pub open spec fn grafo_spec(campos: Seq<CampoDef>) -> Seq<Seq<int>> {
    let ns = nodos_spec(campos);
    Seq::new(
        ns.len(),
        |k: int|
            deps_de(ultimo_calc(campos, ns[k])->Some_0, indice_spec(campos).dom()).map_values(
                |d: Seq<char>| ns.index_of(d),
            ),
    )
}

/// Nombre del último campo calculado de clave `k`, si hay alguno.
pub open spec fn visible_de(campos: Seq<CampoDef>, k: Seq<char>) -> Option<Seq<char>> {
    match ultimo_calc(campos, k) {
        Some(c) => Some(c.nombre@),
        None => None,
    }
}

/// Nombre visible de cada nodo: el del último campo con su clave.
pub open spec fn visibles_spec(campos: Seq<CampoDef>) -> Seq<Seq<char>> {
    let ns = nodos_spec(campos);
    Seq::new(ns.len(), |k: int| ultimo_calc(campos, ns[k])->Some_0.nombre@)
}

proof fn lema_nodos(s: Seq<CampoDef>)
    ensures
        nodos_spec(s).no_duplicates(),
        forall|k: Seq<char>|
            #[trigger] nodos_spec(s).contains(k) <==> indice_spec(s).dom().contains(k),
        forall|k: Seq<char>| #[trigger] nodos_spec(s).contains(k) ==> ultimo_calc(s, k) is Some,
    decreases s.len(),
{
    if s.len() > 0 {
        lema_nodos(s.drop_last());
        let previo = nodos_spec(s.drop_last());
        let c = s.last();
        if c.tipo == TipoCampo::Calculado && !previo.contains(clave_de(c.nombre@)) {
            let n = previo.push(clave_de(c.nombre@));
            assert forall|k: Seq<char>| #[trigger] n.contains(k) <==> previo.contains(k) || k
                == clave_de(c.nombre@) by {
                if n.contains(k) {
                    let i = choose|i: int| 0 <= i < n.len() && n[i] == k;
                    if i < previo.len() {
                        assert(previo[i] == k);
                    }
                }
                if previo.contains(k) {
                    let i = choose|i: int| 0 <= i < previo.len() && previo[i] == k;
                    assert(n[i] == k);
                }
                if k == clave_de(c.nombre@) {
                    assert(n[previo.len() as int] == k);
                }
            }
        }
    }
}

proof fn lema_index_of(s: Seq<Seq<char>>, j: int)
    requires
        s.no_duplicates(),
        0 <= j < s.len(),
    ensures
        s.index_of(s[j]) == j,
{
    assert(s.contains(s[j]));
}

/// Primera posición de la clave `k` en `v`, si está.
fn posicion(v: &Vec<Vec<char>>, k: &Vec<char>) -> (r: Option<usize>)
    ensures
        match r {
            Some(j) => j < v.len() && v@[j as int]@ == k@,
            None => !claves(v@).contains(k@),
        },
{
    let mut j: usize = 0;
    while j < v.len()
        invariant
            j <= v.len(),
            forall|m: int| 0 <= m < j ==> (#[trigger] v@[m])@ != k@,
        decreases v.len() - j,
    {
        if iguales(&v[j], k) {
            return Some(j);
        }
        j += 1;
    }
    assert forall|m: int| 0 <= m < claves(v@).len() implies #[trigger] claves(v@)[m] != k@ by {
        assert(claves(v@)[m] == v@[m]@);
    }
    None
}

/// Clave de búsqueda (nombre normalizado en mayúsculas) de un nombre.
fn clave_exec(nombre: &str) -> (r: Vec<char>)
    ensures
        r@ == clave_de(nombre@),
{
    let norm = normaliza_nombre(nombre);
    en_mayusculas(&caracteres(norm.as_str()))
}

/// Dependencias directas que nombra una fórmula ya tokenizada.
fn dependencias(
    tokens: &Vec<crate::calc::lexer::Token>,
    propia: &Vec<char>,
    calculados: &Vec<CampoCalc>,
) -> (r: Vec<Vec<char>>)
    ensures
        claves(r@) == deps_formula(
            vista_tokens(tokens@),
            0,
            None,
            propia@,
            mapa_indice(calculados@).dom(),
            Seq::empty(),
        ),
        forall|j: int| 0 <= j < r@.len() ==> mapa_indice(calculados@).dom().contains(#[trigger] r@[j]@),
{
    let ghost toks = vista_tokens(tokens@);
    let ghost d = mapa_indice(calculados@).dom();
    let ghost total = deps_formula(toks, 0, None, propia@, d, Seq::empty());
    let mut acc: Vec<Vec<char>> = Vec::new();
    let mut anterior: Option<TipoToken> = None;
    let mut i: usize = 0;
    assert(claves(acc@) =~= Seq::<Seq<char>>::empty());
    while i < tokens.len()
        invariant
            i <= tokens.len(),
            toks == vista_tokens(tokens@),
            toks.len() == tokens.len(),
            d == mapa_indice(calculados@).dom(),
            total == deps_formula(toks, 0, None, propia@, d, Seq::empty()),
            total == deps_formula(toks, i as int, anterior, propia@, d, claves(acc@)),
            forall|j: int| 0 <= j < acc@.len() ==> d.contains(#[trigger] acc@[j]@),
        decreases tokens.len() - i,
    {
        let token = &tokens[i];
        assert(toks[i as int] == (token.texto@, token.tipo));
        let ghost acc0 = claves(acc@);
        let ghost ant0 = anterior;
        let tras_arroba = match anterior {
            Some(TipoToken::IniciaFuncion) => true,
            _ => false,
        };
        if token.tipo == TipoToken::Nombre && !tras_arroba {
            let dep = clave_exec(token.texto.as_str());
            if !iguales(&dep, propia) && buscar(calculados, &dep).is_some() && !contiene(&acc, &dep) {
                acc.push(dep);
                assert(claves(acc@) =~= acc0.push(clave_de(token.texto@)));
            }
        }
        anterior = Some(token.tipo);
        i += 1;
    }
    acc
}

/// Nodos del grafo: las claves distintas de los calculados y el nombre
/// visible de cada una.
fn nodos(campos: &[CampoDef]) -> (r: (Vec<Vec<char>>, Vec<String>))
    ensures
        claves(r.0@) == nodos_spec(campos@),
        r.1@.len() == r.0@.len(),
        forall|j: int| 0 <= j < r.1@.len() ==> (#[trigger] r.1@[j])@ == visibles_spec(campos@)[j],
{
    let mut ks: Vec<Vec<char>> = Vec::new();
    let mut vs: Vec<String> = Vec::new();
    let mut i: usize = 0;
    assert(claves(ks@) =~= Seq::<Seq<char>>::empty());
    while i < campos.len()
        invariant
            i <= campos.len(),
            claves(ks@) == nodos_spec(campos@.subrange(0, i as int)),
            vs@.len() == ks@.len(),
            forall|j: int|
                0 <= j < vs@.len() ==> visible_de(campos@.subrange(0, i as int), ks@[j]@) == Some(
                    (#[trigger] vs@[j])@,
                ),
        decreases campos.len() - i,
    {
        let ghost pre = campos@.subrange(0, i as int);
        let ghost post = campos@.subrange(0, i + 1);
        assert(post.drop_last() =~= pre);
        assert(post.last() == campos@[i as int]);
        let campo = &campos[i];
        let ghost ks0 = ks@;
        let ghost vs0 = vs@;
        proof {
            lema_nodos(pre);
        }
        if campo.tipo == TipoCampo::Calculado {
            let k = clave_exec(campo.nombre.as_str());
            match posicion(&ks, &k) {
                Some(jj) => {
                    assert(claves(ks@)[jj as int] == k@);
                    assert(claves(ks@).contains(k@));
                    vs.set(jj, campo.nombre.clone());
                    proof {
                        assert forall|j: int| 0 <= j < vs@.len() implies visible_de(post, ks@[j]@)
                            == Some((#[trigger] vs@[j])@) by {
                            if j != jj {
                                assert(claves(ks0)[j] != claves(ks0)[jj as int]);
                                assert(ks@[j]@ != k@);
                            }
                        }
                    }
                },
                None => {
                    ks.push(k);
                    assert(claves(ks@) =~= claves(ks0).push(clave_de(campo.nombre@)));
                    vs.push(campo.nombre.clone());
                    proof {
                        assert forall|j: int| 0 <= j < vs@.len() implies visible_de(post, ks@[j]@)
                            == Some((#[trigger] vs@[j])@) by {
                            if j < ks0.len() {
                                assert(claves(ks0)[j] == ks0[j]@);
                                assert(ks0[j]@ != clave_de(campo.nombre@));
                            }
                        }
                    }
                },
            }
        } else {
            proof {
                assert forall|j: int| 0 <= j < vs@.len() implies visible_de(post, ks@[j]@) == Some(
                    (#[trigger] vs@[j])@,
                ) by {
                    assert(visible_de(post, ks@[j]@) == visible_de(pre, ks@[j]@));
                }
            }
        }
        i += 1;
    }
    assert(campos@.subrange(0, campos.len() as int) =~= campos@);
    proof {
        lema_nodos(campos@);
    }
    (ks, vs)
}


/// Un campo calculado está en el índice de calculados.
proof fn lema_calc_en_indice(s: Seq<CampoDef>, i: int)
    requires
        0 <= i < s.len(),
        s[i].tipo == TipoCampo::Calculado,
    ensures
        indice_spec(s).dom().contains(clave_de(s[i].nombre@)),
    decreases s.len(),
{
    if i < s.len() - 1 {
        assert(s.drop_last()[i] == s[i]);
        lema_calc_en_indice(s.drop_last(), i);
    }
}

/// Posición de una clave que se sabe presente en `v`.
fn posicion_presente(v: &Vec<Vec<char>>, k: &Vec<char>) -> (j: usize)
    requires
        claves(v@).contains(k@),
    ensures
        j < v.len(),
        v@[j as int]@ == k@,
{
    match posicion(v, k) {
        Some(j) => j,
        None => {
            proof {
                assert(false);
            }
            0
        },
    }
}

/// Grafo de dependencias de los calculados: el nombre visible de cada nodo y
/// sus dependencias (posiciones de otros nodos).
fn construir_grafo(campos: &[CampoDef], calculados: &Vec<CampoCalc>) -> (r: Result<
    (Vec<String>, Vec<Vec<usize>>),
    MicError,
>)
    requires
        mapa_indice(calculados@) == indice_spec(campos@),
    ensures
        match primer_fallo(campos@) {
            Some((nombre, tok)) => r matches Err(e) && e@ == MicErrorSpec::Calc(
                nombre,
                "dato inválido: "@ + mensaje_token_invalido(tok),
            ),
            None => r matches Ok((vs, g)) && vista_grafo(g@) == grafo_spec(campos@) && vs@.len()
                == g@.len() && forall|j: int|
                0 <= j < vs@.len() ==> (#[trigger] vs@[j])@ == visibles_spec(campos@)[j],
        },
{
    let (ks, vs) = nodos(campos);
    let ghost ns = nodos_spec(campos@);
    let ghost d = indice_spec(campos@).dom();
    proof {
        lema_nodos(campos@);
    }
    let mut g: Vec<Vec<usize>> = Vec::new();
    let mut m: usize = 0;
    while m < ks.len()
        invariant
            m <= ks.len(),
            g@.len() == m,
            forall|j: int| 0 <= j < m ==> (#[trigger] g@[j])@.len() == 0,
        decreases ks.len() - m,
    {
        g.push(Vec::new());
        m += 1;
    }
    let mut i: usize = 0;
    assert(campos@.subrange(0, campos.len() as int) =~= campos@);
    while i < campos.len()
        invariant
            i <= campos.len(),
            claves(ks@) == ns,
            ns == nodos_spec(campos@),
            ns.no_duplicates(),
            d == indice_spec(campos@).dom(),
            d == mapa_indice(calculados@).dom(),
            forall|k: Seq<char>| #[trigger] ns.contains(k) <==> d.contains(k),
            g@.len() == ks@.len(),
            primer_fallo(campos@) == primer_fallo(campos@.subrange(i as int, campos.len() as int)),
            forall|j: int|
                0 <= j < g@.len() ==> vista_grafo(g@)[j] == match ultimo_calc(
                    campos@.subrange(0, i as int),
                    #[trigger] ns[j],
                ) {
                    Some(c) => deps_de(c, d).map_values(|x: Seq<char>| ns.index_of(x)),
                    None => Seq::empty(),
                },
        decreases campos.len() - i,
    {
        let ghost pre = campos@.subrange(0, i as int);
        let ghost post = campos@.subrange(0, i + 1);
        let ghost resto = campos@.subrange(i as int, campos.len() as int);
        assert(post.drop_last() =~= pre);
        assert(resto.drop_first() =~= campos@.subrange(i + 1, campos.len() as int));
        assert(resto[0] == campos@[i as int]);
        let campo = &campos[i];
        let ghost g0 = vista_grafo(g@);
        if campo.tipo == TipoCampo::Calculado {
            let formula: &str = match &campo.formula {
                Some(f) => f.as_str(),
                None => "",
            };
            proof {
                reveal_strlit("");
                assert(formula@ == formula_de(campo.formula));
            }
            let tokens = match tokenizar(formula) {
                Ok(t) => t,
                Err(e) => {
                    return Err(MicError::Calc { campo: campo.nombre.clone(), detalle: e.mensaje() });
                },
            };
            let k = clave_exec(campo.nombre.as_str());
            let deps = dependencias(&tokens, &k, calculados);
            proof {
                lema_calc_en_indice(campos@, i as int);
            }
            let j = posicion_presente(&ks, &k);
            let mut idxs: Vec<usize> = Vec::new();
            let mut t: usize = 0;
            while t < deps.len()
                invariant
                    t <= deps.len(),
                    idxs@.len() == t,
                    claves(ks@) == ns,
                    ns.no_duplicates(),
                    forall|x: Seq<char>| #[trigger] ns.contains(x) <==> d.contains(x),
                    d == mapa_indice(calculados@).dom(),
                    forall|q: int| 0 <= q < deps@.len() ==> d.contains(#[trigger] deps@[q]@),
                    forall|q: int|
                        0 <= q < t ==> (#[trigger] idxs@[q]) as int == ns.index_of(deps@[q]@)
                            && idxs@[q] < ks@.len(),
                decreases deps.len() - t,
            {
                assert(d.contains(deps@[t as int]@));
                let p = posicion_presente(&ks, &deps[t]);
                proof {
                    assert(ns[p as int] == deps@[t as int]@);
                    lema_index_of(ns, p as int);
                }
                idxs.push(p);
                t += 1;
            }
            proof {
                assert(ns[j as int] == k@);
                lema_index_of(ns, j as int);
                let dd = deps_de(campos@[i as int], d);
                assert(dd == claves(deps@));
                assert(idxs@.map_values(|x: usize| x as int) =~= dd.map_values(
                    |x: Seq<char>| ns.index_of(x),
                ));
            }
            g.set(j, idxs);
            proof {
                assert forall|jj: int| 0 <= jj < g@.len() implies vista_grafo(g@)[jj] == match ultimo_calc(
                    post,
                    #[trigger] ns[jj],
                ) {
                    Some(c) => deps_de(c, d).map_values(|x: Seq<char>| ns.index_of(x)),
                    None => Seq::empty(),
                } by {
                    if jj != j {
                        assert(ns[jj] != ns[j as int]);
                        assert(vista_grafo(g@)[jj] == g0[jj]);
                    }
                }
            }
        } else {
            proof {
                assert forall|jj: int| 0 <= jj < g@.len() implies vista_grafo(g@)[jj] == match ultimo_calc(
                    post,
                    #[trigger] ns[jj],
                ) {
                    Some(c) => deps_de(c, d).map_values(|x: Seq<char>| ns.index_of(x)),
                    None => Seq::empty(),
                } by {
                    assert(ultimo_calc(post, ns[jj]) == ultimo_calc(pre, ns[jj]));
                }
            }
        }
        i += 1;
    }
    proof {
        let gs = grafo_spec(campos@);
        assert forall|jj: int| 0 <= jj < g@.len() implies #[trigger] vista_grafo(g@)[jj] == gs[jj] by {
            assert(ns.contains(ns[jj]));
        }
        assert(vista_grafo(g@) =~= gs);
    }
    Ok((vs, g))
}

pub open spec fn msg_dep_circular(n: Seq<char>) -> Seq<char> {
    "dependencia circular en el campo calculado '"@ + n + "'"@
}

/// Lo que el orden de recálculo de `campos` puede dar: el error del primer
/// calculado cuya fórmula no se tokeniza; si no, un orden válido del grafo
/// de dependencias (con los nombres visibles) si no tiene ciclos, o el error
/// de ciclo, que nombra un campo del grafo.
pub open spec fn orden_correcto(
    campos: Seq<CampoDef>,
    r: Result<Seq<Seq<char>>, MicErrorSpec>,
) -> bool {
    let g = grafo_spec(campos);
    let vs = visibles_spec(campos);
    match primer_fallo(campos) {
        Some((nombre, tok)) => r == Err::<Seq<Seq<char>>, MicErrorSpec>(
            MicErrorSpec::Calc(nombre, "dato inválido: "@ + mensaje_token_invalido(tok)),
        ),
        None => match r {
            Ok(o) => !hay_ciclo(g) && exists|ks: Seq<int>|
                orden_valido(g, ks) && o == ks.map_values(|k: int| vs[k]),
            Err(e) => hay_ciclo(g) && exists|k: int|
                0 <= k < g.len() && e == MicErrorSpec::CicloCalculo(msg_dep_circular(vs[k])),
        },
    }
}

/// El resultado del recorrido en profundidad del grafo de dependencias de
/// `campos` (desde cada calculado en su orden de declaración, y las
/// dependencias de cada uno en el orden en que su fórmula las nombra): los
/// nombres visibles en el orden en que terminan, o el error de ciclo que
/// nombra el campo en curso donde se cerró el primer ciclo encontrado.
pub open spec fn orden_dfs(campos: Seq<CampoDef>) -> Result<Seq<Seq<char>>, MicErrorSpec> {
    let vs = visibles_spec(campos);
    match recorrido_dfs(grafo_spec(campos)) {
        Ok((_, ks)) => Ok(ks.map_values(|k: int| vs[k])),
        Err(m) => Err(MicErrorSpec::CicloCalculo(msg_dep_circular(vs[m]))),
    }
}

/// Vista de una lista de nombres.
pub open spec fn vista_nombres(v: Seq<String>) -> Seq<Seq<char>> {
    v.map_values(|s: String| s@)
}

/// Orden de recálculo de los campos calculados: cada uno después de todos los
/// calculados que nombra su fórmula (recorrido en profundidad en el orden de
/// declaración, y las dependencias en el orden en que las nombra la fórmula;
/// cada campo entra al terminar). Da [`MicError::CicloCalculo`] si hay
/// dependencias circulares, nombrando el campo en curso donde el recorrido
/// cierra el primer ciclo.
pub fn orden_topologico(campos: &[CampoDef], calculados: &Vec<CampoCalc>) -> (r: Result<
    Vec<String>,
    MicError,
>)
    requires
        mapa_indice(calculados@) == indice_spec(campos@),
    ensures
        orden_correcto(
            campos@,
            match r {
                Ok(o) => Ok(vista_nombres(o@)),
                Err(e) => Err(e@),
            },
        ),
        primer_fallo(campos@) is None ==> match r {
            Ok(o) => Ok(vista_nombres(o@)),
            Err(e) => Err(e@),
        } == orden_dfs(campos@),
{
    let (vs, g) = match construir_grafo(campos, calculados) {
        Ok(x) => x,
        Err(e) => {
            return Err(e);
        },
    };
    let ghost gs = grafo_spec(campos@);
    let ghost vsp = visibles_spec(campos@);
    proof {
        assert forall|a: int, j: int| 0 <= a < gs.len() && 0 <= j < gs[a].len() implies 0 <= #[trigger] gs[a][j] < gs.len() by {
            let ns = nodos_spec(campos@);
            lema_nodos(campos@);
            let c = ultimo_calc(campos@, ns[a])->Some_0;
            let x = deps_de(c, indice_spec(campos@).dom())[j];
            lema_deps_en(c, indice_spec(campos@).dom());
            assert(indice_spec(campos@).dom().contains(x));
            assert(ns.contains(x));
            let p = choose|p: int| 0 <= p < ns.len() && ns[p] == x;
            lema_index_of(ns, p);
        }
    }
    match ordenar(&g) {
        Ok(o) => {
            proof {
                assert forall|p: int| 0 <= p < o@.len() implies (#[trigger] o@[p]) < g@.len() by {
                    assert(vista_orden(o@)[p] == o@[p] as int);
                }
            }
            let mut nombres: Vec<String> = Vec::new();
            let mut t: usize = 0;
            while t < o.len()
                invariant
                    t <= o.len(),
                    nombres@.len() == t,
                    vs@.len() == g@.len(),
                    forall|p: int| 0 <= p < o@.len() ==> (#[trigger] o@[p]) < g@.len(),
                    forall|q: int| 0 <= q < t ==> (#[trigger] nombres@[q])@ == vs@[o@[q] as int]@,
                decreases o.len() - t,
            {
                nombres.push(vs[o[t]].clone());
                t += 1;
            }
            proof {
                let ks = vista_orden(o@);
                assert(vista_nombres(nombres@) =~= ks.map_values(|k: int| vsp[k]));
            }
            Ok(nombres)
        },
        Err(m) => Err(
            MicError::CicloCalculo(
                concatenar3("dependencia circular en el campo calculado '", vs[m].as_str(), "'"),
            ),
        ),
    }
}

/// Toda dependencia de un campo es una clave de `calc`.
proof fn lema_deps_en(c: CampoDef, calc: Set<Seq<char>>)
    ensures
        forall|j: int|
            0 <= j < deps_de(c, calc).len() ==> calc.contains(#[trigger] deps_de(c, calc)[j]),
{
    match lexear(formula_de(c.formula), 0) {
        Ok(toks) => {
            lema_deps_formula_en(toks, 0, None, clave_de(c.nombre@), calc, Seq::empty());
        },
        Err(_) => {},
    }
}

proof fn lema_deps_formula_en(
    toks: TokensSpec,
    i: int,
    anterior: Option<TipoToken>,
    propia: Seq<char>,
    calc: Set<Seq<char>>,
    acc: Seq<Seq<char>>,
)
    requires
        forall|j: int| 0 <= j < acc.len() ==> calc.contains(#[trigger] acc[j]),
    ensures
        forall|j: int|
            0 <= j < deps_formula(toks, i, anterior, propia, calc, acc).len() ==> calc.contains(
                #[trigger] deps_formula(toks, i, anterior, propia, calc, acc)[j],
            ),
    decreases toks.len() - i,
{
    if 0 <= i < toks.len() {
        let d = clave_de(toks[i].0);
        let acc2 = if es_referencia(toks, i, anterior) && d != propia && calc.contains(d)
            && !acc.contains(d) {
            acc.push(d)
        } else {
            acc
        };
        assert forall|j: int| 0 <= j < acc2.len() implies calc.contains(#[trigger] acc2[j]) by {
            if j < acc.len() {
                assert(acc2[j] == acc[j]);
            }
        }
        lema_deps_formula_en(toks, i + 1, Some(toks[i].1), propia, calc, acc2);
        assert(deps_formula(toks, i, anterior, propia, calc, acc) == deps_formula(
            toks,
            i + 1,
            Some(toks[i].1),
            propia,
            calc,
            acc2,
        ));
    } else {
        assert(deps_formula(toks, i, anterior, propia, calc, acc) == acc);
    }
}


// ---------------------------------------------------------------------------
// Compilación de todos los calculados
// ---------------------------------------------------------------------------

/// Árboles compilados de los campos calculados de `campos` con fórmula no
/// vacía, en orden y con su nombre visible; o el error del primero que no
/// se expande o no compila.
pub open spec fn compilados_s(campos: Seq<CampoDef>, ix: IndiceSpec) -> Result<
    Seq<(Seq<char>, AstSpec)>,
    MicErrorSpec,
>
    decreases campos.len(),
{
    if campos.len() == 0 {
        Ok(Seq::empty())
    } else {
        let c = campos[0];
        let resto = compilados_s(campos.drop_first(), ix);
        if c.tipo != TipoCampo::Calculado || recortado(formula_de(c.formula)).len() == 0 {
            resto
        } else {
            match expandir_s(formula_de(c.formula), normalizado(c.nombre@), ix, Seq::empty(), 0) {
                Err(e) => Err(e),
                Ok(x) => match compilacion(x) {
                    Err(d) => Err(MicErrorSpec::Calc(c.nombre@, d)),
                    Ok(a) => match resto {
                        Err(e) => Err(e),
                        Ok(l) => Ok(seq![(c.nombre@, a)] + l),
                    },
                },
            }
        }
    }
}

/// Los nombres de `o` que están entre los de `l`, en el orden de `o`.
pub open spec fn presentes(o: Seq<Seq<char>>, l: Seq<(Seq<char>, AstSpec)>) -> Seq<Seq<char>>
    decreases o.len(),
{
    if o.len() == 0 {
        Seq::empty()
    } else {
        let previo = presentes(o.drop_last(), l);
        if exists|k: int| 0 <= k < l.len() && l[k].0 == o.last() {
            previo.push(o.last())
        } else {
            previo
        }
    }
}

/// Vista de la lista de árboles compilados.
pub open spec fn vista_compilados(v: Seq<(String, Ast)>) -> Seq<(Seq<char>, AstSpec)> {
    v.map_values(|p: (String, Ast)| (p.0@, p.1@))
}

/// Compila las fórmulas de todos los campos calculados.
///
/// Devuelve la lista `(nombre visible, árbol)` de los calculados con fórmula
/// (con las referencias a otros calculados ya expandidas; si dos campos
/// comparten nombre, rige el posterior) y el orden de recálculo, que solo
/// incluye los campos compilados, en el orden de [`orden_topologico`]. Un
/// calculado sin fórmula todavía se omite.
/// Errores: [`MicError::CicloCalculo`] si hay dependencias circulares (con el
/// campo que nombra [`orden_topologico`]);
/// [`MicError::Calc`] si una fórmula no compila.
pub fn compilar_todo(campos: &[CampoDef]) -> (r: Result<(Vec<(String, Ast)>, Vec<String>), MicError>)
    ensures
        match compilados_s(campos@, indice_spec(campos@)) {
            Err(e) => r matches Err(e2) && e2@ == e,
            Ok(l) => match r {
                Ok((lista, orden)) => vista_compilados(lista@) == l && exists|o: Seq<Seq<char>>|
                    orden_correcto(campos@, Ok(o)) && vista_nombres(orden@) == presentes(o, l),
                Err(e) => orden_correcto(campos@, Err(e@)),
            },
        },
        primer_fallo(campos@) is None && compilados_s(campos@, indice_spec(campos@)) is Ok ==> match (
            r,
            orden_dfs(campos@),
        ) {
            (Ok((_, orden)), Ok(o)) => vista_nombres(orden@) == presentes(
                o,
                compilados_s(campos@, indice_spec(campos@))->Ok_0,
            ),
            (Err(e), Err(e2)) => e@ == e2,
            _ => false,
        },
{
    let calculados = indexar_calculados(campos);
    let ghost ix = indice_spec(campos@);
    let ghost total = compilados_s(campos@, ix);
    let mut lista: Vec<(String, Ast)> = Vec::new();
    let mut i: usize = 0;
    assert(campos@.subrange(0, campos.len() as int) =~= campos@);
    while i < campos.len()
        invariant
            i <= campos.len(),
            ix == indice_spec(campos@),
            ix == mapa_indice(calculados@),
            total == compilados_s(campos@, ix),
            total == match compilados_s(campos@.subrange(i as int, campos.len() as int), ix) {
                Err(e) => Err(e),
                Ok(l) => Ok(vista_compilados(lista@) + l),
            },
        decreases campos.len() - i,
    {
        let ghost resto = campos@.subrange(i as int, campos.len() as int);
        assert(resto.drop_first() =~= campos@.subrange(i + 1, campos.len() as int));
        assert(resto[0] == campos@[i as int]);
        let campo = &campos[i];
        if campo.tipo == TipoCampo::Calculado {
            let formula: &str = match &campo.formula {
                Some(f) => f.as_str(),
                None => "",
            };
            proof {
                reveal_strlit("");
                assert(formula@ == formula_de(campo.formula));
            }
            if recortar(&caracteres(formula)).len() > 0 {
                let propio = normaliza_nombre(campo.nombre.as_str());
                let mut visitados: Vec<Vec<char>> = Vec::new();
                assert(claves(visitados@) =~= Seq::<Seq<char>>::empty());
                let expandida = match expandir(
                    formula,
                    propio.as_str(),
                    &calculados,
                    &mut visitados,
                    0,
                ) {
                    Ok(x) => x,
                    Err(e) => {
                        return Err(e);
                    },
                };
                let ast = match compilar(expandida.as_str()) {
                    Ok(a) => a,
                    Err(detalle) => {
                        return Err(MicError::Calc { campo: campo.nombre.clone(), detalle });
                    },
                };
                let ghost l0 = vista_compilados(lista@);
                let ghost par = (campo.nombre@, ast@);
                lista.push((campo.nombre.clone(), ast));
                assert(vista_compilados(lista@) =~= l0.push(par));
                proof {
                    match compilados_s(campos@.subrange(i + 1, campos.len() as int), ix) {
                        Ok(l) => {
                            assert(l0.push(par) + l =~= l0 + (seq![par] + l));
                        },
                        Err(_) => {},
                    }
                }
            }
        }
        i += 1;
    }
    let ghost l = vista_compilados(lista@);
    assert(campos@.subrange(campos.len() as int, campos.len() as int) =~= Seq::<CampoDef>::empty());
    assert(l + Seq::<(Seq<char>, AstSpec)>::empty() =~= l);
    let orden = match orden_topologico(campos, &calculados) {
        Ok(o) => o,
        Err(e) => {
            return Err(e);
        },
    };
    let mut filtrado: Vec<String> = Vec::new();
    let mut t: usize = 0;
    assert(vista_nombres(filtrado@) =~= presentes(vista_nombres(orden@).subrange(0, 0), l));
    while t < orden.len()
        invariant
            t <= orden.len(),
            l == vista_compilados(lista@),
            vista_nombres(filtrado@) == presentes(vista_nombres(orden@).subrange(0, t as int), l),
        decreases orden.len() - t,
    {
        let ghost sub = vista_nombres(orden@).subrange(0, t + 1);
        assert(sub.drop_last() =~= vista_nombres(orden@).subrange(0, t as int));
        assert(sub.last() == orden@[t as int]@);
        let mut esta = false;
        let mut k: usize = 0;
        while k < lista.len()
            invariant
                k <= lista.len(),
                t < orden.len(),
                l == vista_compilados(lista@),
                esta <==> exists|m: int| 0 <= m < k && l[m].0 == orden@[t as int]@,
            decreases lista.len() - k,
        {
            if lista[k].0 == orden[t] {
                esta = true;
            }
            proof {
                assert(l[k as int].0 == lista@[k as int].0@);
                if esta {
                    if !(exists|m: int| 0 <= m < k && l[m].0 == orden@[t as int]@) {
                        assert(l[k as int].0 == orden@[t as int]@);
                    }
                }
            }
            k += 1;
        }
        let ghost f0 = vista_nombres(filtrado@);
        if esta {
            filtrado.push(orden[t].clone());
            assert(vista_nombres(filtrado@) =~= f0.push(orden@[t as int]@));
        }
        t += 1;
    }
    assert(vista_nombres(orden@).subrange(0, orden.len() as int) =~= vista_nombres(orden@));
    assert(orden_correcto(campos@, Ok(vista_nombres(orden@))));
    assert(vista_nombres(filtrado@) == presentes(vista_nombres(orden@), l));
    Ok((lista, filtrado))
}

/// El orden de recálculo respeta las referencias de las fórmulas: si la
/// fórmula del campo calculado de clave `x` nombra al calculado de clave `y`
/// (un nombre que no sigue a `@`, distinto del propio), en un orden que da
/// [`orden_topologico`] el nombre de `y` va antes que el de `x`.
pub proof fn ley_orden_respeta_referencias(campos: Seq<CampoDef>, o: Seq<Seq<char>>, x: Seq<char>, y: Seq<char>)
    requires
        orden_correcto(campos, Ok(o)),
        indice_spec(campos).dom().contains(x),
        deps_de(ultimo_calc(campos, x)->Some_0, indice_spec(campos).dom()).contains(y),
    ensures
        exists|p: int, q: int|
            0 <= p < q < o.len() && o[p] == ultimo_calc(campos, y)->Some_0.nombre@ && o[q]
                == ultimo_calc(campos, x)->Some_0.nombre@,
{
    let ns = nodos_spec(campos);
    let g = grafo_spec(campos);
    let vs = visibles_spec(campos);
    let dom = indice_spec(campos).dom();
    lema_nodos(campos);
    let cx = ultimo_calc(campos, x)->Some_0;
    let ds = deps_de(cx, dom);
    lema_deps_en(cx, dom);
    let jd = choose|j: int| 0 <= j < ds.len() && ds[j] == y;
    assert(dom.contains(ds[jd]));
    assert(ns.contains(x));
    assert(ns.contains(y));
    let a = choose|k: int| 0 <= k < ns.len() && ns[k] == x;
    let b = choose|k: int| 0 <= k < ns.len() && ns[k] == y;
    lema_index_of(ns, a);
    lema_index_of(ns, b);
    assert(g[a] == ds.map_values(|d: Seq<char>| ns.index_of(d)));
    assert(g[a][jd] == b);
    assert(arista(g, a, b));
    let ks = choose|ks: Seq<int>| orden_valido(g, ks) && o == ks.map_values(|k: int| vs[k]);
    assert(ks.contains(a));
    assert(ks.contains(b));
    let q = choose|q: int| 0 <= q < ks.len() && ks[q] == a;
    let p = choose|p: int| 0 <= p < ks.len() && ks[p] == b;
    assert(arista(g, ks[q], ks[p]));
    assert(p < q);
    assert(o[p] == vs[b]);
    assert(o[q] == vs[a]);
}

/// El token `k` nombra a otro campo calculado: es un nombre que no sigue a
/// `@`, su clave está en el índice y no es la del propio campo.
pub open spec fn referencia_a_otro(toks: TokensSpec, k: int, propio_may: Seq<char>, ix: IndiceSpec) -> bool {
    &&& es_referencia(toks, k, if k == 0 { None } else { Some(toks[k - 1].1) })
    &&& clave_de(toks[k].0) != propio_may
    &&& ix.dom().contains(clave_de(toks[k].0))
}

/// Una pasada que empezó con cambios termina con cambios (o falla).
proof fn lema_pasada_con_cambios(
    toks: TokensSpec,
    i: int,
    ant: Option<TipoToken>,
    pm: Seq<char>,
    ix: IndiceSpec,
    visit: Seq<Seq<char>>,
    prof: nat,
    salida: Seq<char>,
)
    ensures
        sustituir_s(toks, i, ant, pm, ix, visit, prof, salida, true) matches Ok((_, m)) ==> m,
    decreases toks.len() - i,
{
    if 0 <= i < toks.len() && prof <= 64 {
        let texto = toks[i].0;
        let clave = clave_de(texto);
        if es_referencia(toks, i, ant) && clave != pm && ix.dom().contains(clave) {
            let norm = ix[clave].0;
            if !visit.contains(clave) {
                match expandir_s(ix[clave].1, norm, ix, visit.push(clave), prof + 1) {
                    Ok(interna) => {
                        lema_pasada_con_cambios(
                            toks,
                            i + 1,
                            Some(toks[i].1),
                            pm,
                            ix,
                            visit,
                            prof,
                            salida + seq!['('] + interna + seq![')'],
                        );
                    },
                    Err(_) => {},
                }
            }
        } else {
            lema_pasada_con_cambios(toks, i + 1, Some(toks[i].1), pm, ix, visit, prof, salida + texto);
        }
    }
}

/// Una pasada sin cambios copia los tokens y ninguno nombra a otro calculado.
proof fn lema_pasada_sin_cambios(
    toks: TokensSpec,
    i: int,
    pm: Seq<char>,
    ix: IndiceSpec,
    visit: Seq<Seq<char>>,
    prof: nat,
    salida: Seq<char>,
)
    requires
        0 <= i <= toks.len(),
        prof <= 64,
    ensures
        sustituir_s(
            toks,
            i,
            if i == 0 { None } else { Some(toks[i - 1].1) },
            pm,
            ix,
            visit,
            prof,
            salida,
            false,
        ) matches Ok((out, false)) ==> out == salida + textos_unidos(toks.subrange(i, toks.len() as int))
            && forall|k: int| i <= k < toks.len() ==> !#[trigger] referencia_a_otro(toks, k, pm, ix),
    decreases toks.len() - i,
{
    let ant = if i == 0 { None } else { Some(toks[i - 1].1) };
    if i == toks.len() {
        assert(toks.subrange(i, toks.len() as int) =~= Seq::<(Seq<char>, TipoToken)>::empty());
        assert(salida + Seq::<char>::empty() =~= salida);
    } else {
        let texto = toks[i].0;
        let clave = clave_de(texto);
        if es_referencia(toks, i, ant) && clave != pm && ix.dom().contains(clave) {
            let norm = ix[clave].0;
            if !visit.contains(clave) {
                match expandir_s(ix[clave].1, norm, ix, visit.push(clave), prof + 1) {
                    Ok(interna) => {
                        lema_pasada_con_cambios(
                            toks,
                            i + 1,
                            Some(toks[i].1),
                            pm,
                            ix,
                            visit,
                            prof,
                            salida + seq!['('] + interna + seq![')'],
                        );
                    },
                    Err(_) => {},
                }
            }
        } else {
            lema_pasada_sin_cambios(toks, i + 1, pm, ix, visit, prof, salida + texto);
            let r = toks.subrange(i, toks.len() as int);
            assert(r.drop_first() =~= toks.subrange(i + 1, toks.len() as int));
            assert(r[0] == toks[i]);
            assert(salida + texto + textos_unidos(r.drop_first()) =~= salida + (r[0].0 + textos_unidos(
                r.drop_first(),
            )));
            assert(!referencia_a_otro(toks, i, pm, ix));
        }
    }
}

/// Tras la expansión no queda ninguna referencia a otro calculado en la
/// última lectura de la fórmula: el texto expandido son, uno tras otro, los
/// textos de unos tokens leídos de un texto, y ninguno de ellos nombra a otro
/// calculado (las referencias se sustituyeron por su fórmula entre
/// paréntesis, hasta una pasada sin cambios).
pub proof fn ley_expansion_sin_referencias(
    s: Seq<char>,
    propio: Seq<char>,
    ix: IndiceSpec,
    visit: Seq<Seq<char>>,
    prof: nat,
)
    ensures
        expandir_s(s, propio, ix, visit, prof) matches Ok(r) ==> exists|t: Seq<char>, ts: TokensSpec|
            lexear(t, 0) == Ok::<TokensSpec, Seq<char>>(ts) && r == textos_unidos(ts) && forall|k: int|
                0 <= k < ts.len() ==> !#[trigger] referencia_a_otro(ts, k, mayusculas(propio), ix),
    decreases 65 - prof,
{
    if prof <= 64 {
        match lexear(s, 0) {
            Ok(toks) => {
                match sustituir_s(toks, 0, None, mayusculas(propio), ix, visit, prof, Seq::empty(), false) {
                    Ok((salida, modifico)) => {
                        if modifico {
                            ley_expansion_sin_referencias(salida, propio, ix, visit, prof + 1);
                        } else {
                            lema_pasada_sin_cambios(toks, 0, mayusculas(propio), ix, visit, prof, Seq::empty());
                            assert(toks.subrange(0, toks.len() as int) =~= toks);
                            assert(Seq::<char>::empty() + textos_unidos(toks) =~= textos_unidos(toks));
                        }
                    },
                    Err(_) => {},
                }
            },
            Err(_) => {},
        }
    }
}

proof fn lema_ultimo_calc_clave(campos: Seq<CampoDef>, k: Seq<char>)
    ensures
        ultimo_calc(campos, k) matches Some(c) ==> clave_de(c.nombre@) == k,
    decreases campos.len(),
{
    if campos.len() > 0 {
        lema_ultimo_calc_clave(campos.drop_last(), k);
    }
}

/// Un orden de recálculo nombra una sola vez a cada campo calculado (por su
/// nombre visible, el del último con su clave) y a ningún otro.
pub proof fn ley_orden_nombra_cada_calculado(campos: Seq<CampoDef>, o: Seq<Seq<char>>)
    requires
        orden_correcto(campos, Ok(o)),
    ensures
        o.no_duplicates(),
        forall|x: Seq<char>| indice_spec(campos).dom().contains(x) ==> o.contains(
            #[trigger] ultimo_calc(campos, x)->Some_0.nombre@,
        ),
        forall|p: int| 0 <= p < o.len() ==> indice_spec(campos).dom().contains(#[trigger] clave_de(o[p])),
{
    let ns = nodos_spec(campos);
    let g = grafo_spec(campos);
    let vs = visibles_spec(campos);
    lema_nodos(campos);
    let ks = choose|ks: Seq<int>| orden_valido(g, ks) && o == ks.map_values(|k: int| vs[k]);
    assert forall|k: int| 0 <= k < ns.len() implies clave_de(#[trigger] vs[k]) == ns[k] by {
        assert(ns.contains(ns[k]));
        lema_ultimo_calc_clave(campos, ns[k]);
    }
    assert forall|p: int, q: int| 0 <= p < o.len() && 0 <= q < o.len() && p != q implies o[p] != o[q] by {
        assert(o[p] == vs[ks[p]] && o[q] == vs[ks[q]]);
        if o[p] == o[q] {
            assert(clave_de(vs[ks[p]]) == ns[ks[p]]);
            assert(clave_de(vs[ks[q]]) == ns[ks[q]]);
            assert(ks[p] != ks[q]);
        }
    }
    assert forall|x: Seq<char>| indice_spec(campos).dom().contains(x) implies o.contains(
        #[trigger] ultimo_calc(campos, x)->Some_0.nombre@,
    ) by {
        assert(ns.contains(x));
        let a = choose|a: int| 0 <= a < ns.len() && ns[a] == x;
        assert(ks.contains(a));
        let q = choose|q: int| 0 <= q < ks.len() && ks[q] == a;
        assert(o[q] == vs[a]);
    }
    assert forall|p: int| 0 <= p < o.len() implies indice_spec(campos).dom().contains(#[trigger] clave_de(o[p])) by {
        assert(o[p] == vs[ks[p]]);
        assert(ns.contains(ns[ks[p]]));
    }
}

} // verus!
