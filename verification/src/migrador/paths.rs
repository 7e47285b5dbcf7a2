//! Normalización de las rutas de imágenes del álbum de origen.
//!
//! En los álbumes antiguos la columna `_imagen_` guarda rutas de Windows, a
//! veces absolutas con unidad de red (`G:\MIC\imagenes\foto.jpg`), a veces
//! relativas (`.\imagenes\foto.jpg`), con barras invertidas. El álbum nuevo
//! guarda siempre rutas relativas al álbum, con barras normales, de la forma
//! `imagenes/<archivo>`:
//! 1. se parte la ruta en segmentos por `\` o `/`;
//! 2. si aparece un segmento `imagenes` (sin distinguir mayúsculas), se
//!    conserva desde el último de ellos;
//! 3. si no, se toma solo el nombre de archivo bajo `imagenes/`.

use vstd::prelude::*;
use vstd::string::*;
use crate::texto::{
    cadena, caracteres, es_blanco, igual_sin_caja, iguales_sin_caja, limites_recorte, recortado, recortar,
    sin_blancos_fin, sin_blancos_inicio,
};

verus! {

#[verifier::external_type_specification]
#[verifier::external_body]
pub struct ExRuta(std::path::PathBuf);

/// Nombre de la carpeta de imágenes.
pub const DIR_IMAGENES: &'static str = "imagenes";

/// Separador de segmentos de ruta (`/` o `\`).
pub open spec fn es_separador(c: char) -> bool {
    c == '/' || c == '\\'
}

/// Trozos de `s` entre separadores, como `split`: siempre al menos uno.
pub open spec fn trozos(s: Seq<char>) -> Seq<Seq<char>>
    decreases s.len(),
{
    if s.len() == 0 {
        seq![Seq::empty()]
    } else {
        let p = trozos(s.drop_last());
        if es_separador(s.last()) {
            p.push(Seq::empty())
        } else {
            p.update(p.len() - 1, p.last().push(s.last()))
        }
    }
}

/// Un trozo cuenta como segmento si, recortado, no es vacío ni `.`.
pub open spec fn util(t: Seq<char>) -> bool {
    recortado(t).len() > 0 && recortado(t) != seq!['.']
}

/// Segmentos útiles (recortados) de una lista de trozos.
pub open spec fn segmentos(ps: Seq<Seq<char>>) -> Seq<Seq<char>>
    decreases ps.len(),
{
    if ps.len() == 0 {
        Seq::empty()
    } else {
        let previo = segmentos(ps.drop_last());
        if util(ps.last()) {
            previo.push(recortado(ps.last()))
        } else {
            previo
        }
    }
}

/// El segmento es la carpeta de imágenes (sin distinguir mayúsculas).
pub open spec fn es_imagenes(s: Seq<char>) -> bool {
    igual_sin_caja(s, "imagenes"@)
}

/// Posición del último segmento `imagenes`, si hay alguno.
pub open spec fn ultima_imagenes(segs: Seq<Seq<char>>) -> Option<int>
    decreases segs.len(),
{
    if segs.len() == 0 {
        None
    } else if es_imagenes(segs.last()) {
        Some(segs.len() - 1)
    } else {
        ultima_imagenes(segs.drop_last())
    }
}

/// `/seg` por cada segmento desde `i`.
pub open spec fn unir_desde(segs: Seq<Seq<char>>, i: int) -> Seq<char>
    decreases segs.len() - i,
{
    if i < 0 || i >= segs.len() {
        Seq::empty()
    } else {
        seq!['/'] + segs[i] + unir_desde(segs, i + 1)
    }
}

/// La ruta relativa al álbum que corresponde a la ruta de imagen `ruta`.
pub open spec fn imagen_normalizada(ruta: Seq<char>) -> Seq<char> {
    let limpio = recortado(ruta);
    let segs = segmentos(trozos(limpio));
    if limpio.len() == 0 || segs.len() == 0 {
        Seq::empty()
    } else {
        match ultima_imagenes(segs) {
            Some(i) => "imagenes"@ + unir_desde(segs, i + 1),
            None => "imagenes/"@ + segs.last(),
        }
    }
}

/// Quitar los blancos iniciales deja un sufijo que, si no es vacío, empieza
/// por un carácter que no es blanco.
proof fn lema_sin_inicio(s: Seq<char>)
    ensures
        exists|k: int| 0 <= k <= s.len() && sin_blancos_inicio(s) == s.subrange(k, s.len() as int),
        sin_blancos_inicio(s).len() > 0 ==> !es_blanco(sin_blancos_inicio(s)[0]),
    decreases s.len(),
{
    if s.len() > 0 && es_blanco(s[0]) {
        lema_sin_inicio(s.drop_first());
        let k = choose|k: int|
            0 <= k <= s.drop_first().len() && sin_blancos_inicio(s.drop_first()) == s.drop_first().subrange(
                k,
                s.drop_first().len() as int,
            );
        assert(s.drop_first().subrange(k, s.drop_first().len() as int) =~= s.subrange(k + 1, s.len() as int));
    } else {
        assert(s.subrange(0, s.len() as int) =~= s);
    }
}

/// Quitar los blancos finales deja un prefijo que, si no es vacío, acaba en
/// un carácter que no es blanco.
proof fn lema_sin_fin(s: Seq<char>)
    ensures
        exists|k: int| 0 <= k <= s.len() && sin_blancos_fin(s) == s.subrange(0, k),
        sin_blancos_fin(s).len() > 0 ==> !es_blanco(sin_blancos_fin(s).last()),
    decreases s.len(),
{
    if s.len() > 0 && es_blanco(s.last()) {
        lema_sin_fin(s.drop_last());
        let k = choose|k: int| 0 <= k <= s.drop_last().len() && sin_blancos_fin(s.drop_last()) == s.drop_last().subrange(0, k);
        assert(s.drop_last().subrange(0, k) =~= s.subrange(0, k));
    } else {
        assert(s.subrange(0, s.len() as int) =~= s);
    }
}

/// Lo recortado es un trozo contiguo del texto y, si no es vacío, empieza y
/// acaba en caracteres que no son blancos.
proof fn lema_recortado(s: Seq<char>)
    ensures
        exists|a: int, b: int| 0 <= a <= b <= s.len() && recortado(s) == s.subrange(a, b),
        recortado(s).len() > 0 ==> !es_blanco(recortado(s)[0]) && !es_blanco(recortado(s).last()),
{
    let x = sin_blancos_inicio(s);
    lema_sin_inicio(s);
    lema_sin_fin(x);
    let a = choose|k: int| 0 <= k <= s.len() && x == s.subrange(k, s.len() as int);
    let b = choose|k: int| 0 <= k <= x.len() && sin_blancos_fin(x) == x.subrange(0, k);
    assert(recortado(s) =~= s.subrange(a, a + b));
    if recortado(s).len() > 0 {
        assert(recortado(s)[0] == x[0]);
    }
}

/// Un texto que empieza y acaba en caracteres que no son blancos ya está
/// recortado.
proof fn lema_ya_recortado(s: Seq<char>)
    requires
        s.len() > 0,
        !es_blanco(s[0]),
        !es_blanco(s.last()),
    ensures
        recortado(s) == s,
{
}

/// Recortar dos veces es recortar una.
proof fn lema_recortado_idempotente(s: Seq<char>)
    ensures
        recortado(recortado(s)) == recortado(s),
{
    lema_recortado(s);
    if recortado(s).len() > 0 {
        lema_ya_recortado(recortado(s));
    }
}

/// Ningún trozo contiene un separador.
proof fn lema_trozos_sin_separador(s: Seq<char>)
    ensures
        trozos(s).len() >= 1,
        forall|i: int, j: int|
            0 <= i < trozos(s).len() && 0 <= j < trozos(s)[i].len() ==> !es_separador(#[trigger] trozos(s)[i][j]),
    decreases s.len(),
{
    if s.len() > 0 {
        lema_trozos_sin_separador(s.drop_last());
    }
}

/// Un texto sin separadores es un solo trozo.
proof fn lema_trozo_unico(x: Seq<char>)
    requires
        forall|j: int| 0 <= j < x.len() ==> !es_separador(#[trigger] x[j]),
    ensures
        trozos(x) == seq![x],
    decreases x.len(),
{
    if x.len() > 0 {
        lema_trozo_unico(x.drop_last());
        assert(x.drop_last().push(x.last()) =~= x);
        assert(seq![x.drop_last()].update(0, x) =~= seq![x]);
    } else {
        assert(x =~= Seq::<char>::empty());
    }
}

/// Partir `a/b` es partir `a` y luego `b`.
proof fn lema_trozos_concat(a: Seq<char>, b: Seq<char>)
    ensures
        trozos(a + seq!['/'] + b) == trozos(a) + trozos(b),
    decreases b.len(),
{
    lema_trozos_no_vacio(b);
    if b.len() == 0 {
        assert(a + seq!['/'] + b =~= (a + seq!['/']).drop_last().push('/'));
        assert((a + seq!['/']).drop_last() =~= a);
        assert(trozos(b) =~= seq![Seq::<char>::empty()]);
        assert(trozos(a).push(Seq::empty()) =~= trozos(a) + trozos(b));
    } else {
        lema_trozos_concat(a, b.drop_last());
        lema_trozos_no_vacio(b.drop_last());
        let t = a + seq!['/'] + b;
        assert(t.drop_last() =~= a + seq!['/'] + b.drop_last());
        assert(t.last() == b.last());
        let p = trozos(a) + trozos(b.drop_last());
        if es_separador(b.last()) {
            assert(p.push(Seq::empty()) =~= trozos(a) + trozos(b.drop_last()).push(Seq::empty()));
        } else {
            let q = trozos(b.drop_last());
            assert(p.update(p.len() - 1, p.last().push(b.last())) =~= trozos(a) + q.update(
                q.len() - 1,
                q.last().push(b.last()),
            ));
        }
    }
}

/// Un segmento limpio: no vacío, distinto de `.`, ya recortado y sin
/// separadores.
pub open spec fn segmento_limpio(e: Seq<char>) -> bool {
    &&& e.len() > 0
    &&& e != seq!['.']
    &&& recortado(e) == e
    &&& forall|j: int| 0 <= j < e.len() ==> !es_separador(#[trigger] e[j])
}

/// Los segmentos útiles de unos trozos sin separadores son limpios.
proof fn lema_segmentos_limpios_de(ps: Seq<Seq<char>>)
    requires
        forall|i: int, j: int| 0 <= i < ps.len() && 0 <= j < ps[i].len() ==> !es_separador(#[trigger] ps[i][j]),
    ensures
        forall|k: int| 0 <= k < segmentos(ps).len() ==> segmento_limpio(#[trigger] segmentos(ps)[k]),
    decreases ps.len(),
{
    if ps.len() > 0 {
        lema_segmentos_limpios_de(ps.drop_last());
        let t = ps.last();
        if util(t) {
            lema_recortado(t);
            lema_recortado_idempotente(t);
            let (a, b) = choose|a: int, b: int| 0 <= a <= b <= t.len() && recortado(t) == t.subrange(a, b);
            assert forall|j: int| 0 <= j < recortado(t).len() implies !es_separador(#[trigger] recortado(t)[j]) by {
                assert(recortado(t)[j] == ps[ps.len() - 1][a + j]);
            }
            let p = segmentos(ps.drop_last());
            assert forall|k: int| 0 <= k < p.push(recortado(t)).len() implies segmento_limpio(
                #[trigger] p.push(recortado(t))[k],
            ) by {
                if k < p.len() {
                    assert(p.push(recortado(t))[k] == p[k]);
                }
            }
        }
    }
}

/// Unos trozos que ya son segmentos limpios son sus propios segmentos.
proof fn lema_segmentos_de_limpios(ps: Seq<Seq<char>>)
    requires
        forall|k: int| 0 <= k < ps.len() ==> segmento_limpio(#[trigger] ps[k]),
    ensures
        segmentos(ps) == ps,
    decreases ps.len(),
{
    if ps.len() > 0 {
        assert forall|k: int| 0 <= k < ps.drop_last().len() implies segmento_limpio(#[trigger] ps.drop_last()[k]) by {
            assert(ps.drop_last()[k] == ps[k]);
        }
        lema_segmentos_de_limpios(ps.drop_last());
        assert(segmento_limpio(ps[ps.len() - 1]));
        assert(ps.drop_last().push(ps.last()) =~= ps);
    }
}

/// Después del último `imagenes` no hay otro; sin ninguno, ningún segmento
/// lo es.
proof fn lema_ultima_imagenes(segs: Seq<Seq<char>>)
    ensures
        match ultima_imagenes(segs) {
            Some(i) => 0 <= i < segs.len() && forall|j: int| i < j < segs.len() ==> !es_imagenes(#[trigger] segs[j]),
            None => forall|j: int| 0 <= j < segs.len() ==> !es_imagenes(#[trigger] segs[j]),
        },
    decreases segs.len(),
{
    if segs.len() > 0 && !es_imagenes(segs.last()) {
        lema_ultima_imagenes(segs.drop_last());
        assert forall|j: int| 0 <= j < segs.len() - 1 implies segs.drop_last()[j] == #[trigger] segs[j] by {}
    }
}

/// Con `imagenes` delante de segmentos que no lo son, el último `imagenes`
/// es el primero.
proof fn lema_ultima_es_la_primera(t: Seq<Seq<char>>)
    requires
        forall|j: int| 0 <= j < t.len() ==> !es_imagenes(#[trigger] t[j]),
    ensures
        ultima_imagenes(seq!["imagenes"@] + t) == Some(0int),
    decreases t.len(),
{
    let p = seq!["imagenes"@] + t;
    if t.len() > 0 {
        assert(p.last() == t[t.len() - 1]);
        assert(p.drop_last() =~= seq!["imagenes"@] + t.drop_last());
        assert forall|j: int| 0 <= j < t.drop_last().len() implies !es_imagenes(#[trigger] t.drop_last()[j]) by {
            assert(t.drop_last()[j] == t[j]);
        }
        lema_ultima_es_la_primera(t.drop_last());
    } else {
        assert(p =~= seq!["imagenes"@]);
    }
}

/// Unir desde `i` es unir el resto desde el principio.
proof fn lema_unir_desplaza(t: Seq<Seq<char>>, i: int)
    requires
        0 <= i <= t.len(),
    ensures
        unir_desde(t, i) == unir_desde(t.subrange(i, t.len() as int), 0),
    decreases t.len() - i,
{
    if i < t.len() {
        lema_unir_desplaza(t, i + 1);
        let r = t.subrange(i, t.len() as int);
        lema_unir_desplaza(r, 1);
        assert(r.subrange(1, r.len() as int) =~= t.subrange(i + 1, t.len() as int));
        assert(r[0] == t[i]);
    }
}

/// Partir `x/t_i/.../t_n` da `x` y los segmentos.
proof fn lema_trozos_union(x: Seq<char>, t: Seq<Seq<char>>, i: int)
    requires
        0 <= i <= t.len(),
        forall|j: int| 0 <= j < x.len() ==> !es_separador(#[trigger] x[j]),
        forall|k: int| 0 <= k < t.len() ==> segmento_limpio(#[trigger] t[k]),
    ensures
        trozos(x + unir_desde(t, i)) == seq![x] + t.subrange(i, t.len() as int),
    decreases t.len() - i,
{
    if i < t.len() {
        assert(segmento_limpio(t[i]));
        lema_trozos_union(t[i], t, i + 1);
        let resto = t[i] + unir_desde(t, i + 1);
        assert(x + unir_desde(t, i) =~= x + seq!['/'] + resto);
        lema_trozos_concat(x, resto);
        lema_trozo_unico(x);
        assert(seq![x] + (seq![t[i]] + t.subrange(i + 1, t.len() as int)) =~= seq![x] + t.subrange(i, t.len() as int));
    } else {
        assert(x + unir_desde(t, i) =~= x);
        lema_trozo_unico(x);
        assert(seq![x] + t.subrange(i, t.len() as int) =~= seq![x]);
    }
}

/// Lo unido acaba en el último carácter del último segmento, y no tiene `\`.
proof fn lema_unir_forma(t: Seq<Seq<char>>, i: int)
    requires
        0 <= i <= t.len(),
        forall|k: int| 0 <= k < t.len() ==> segmento_limpio(#[trigger] t[k]),
    ensures
        i < t.len() ==> unir_desde(t, i).len() > 0 && unir_desde(t, i).last() == t.last().last(),
        !unir_desde(t, i).contains('\\'),
    decreases t.len() - i,
{
    if i < t.len() {
        lema_unir_forma(t, i + 1);
        let u = unir_desde(t, i);
        let r = unir_desde(t, i + 1);
        assert(segmento_limpio(t[i]));
        assert(u =~= seq!['/'] + t[i] + r);
        if u.contains('\\') {
            let k = choose|k: int| 0 <= k < u.len() && u[k] == '\\';
            if k >= 1 + t[i].len() {
                assert(r[k - 1 - t[i].len()] == '\\');
            } else if k >= 1 {
                assert(t[i][k - 1] == '\\');
            }
        }
        if i + 1 == t.len() {
            assert(u.last() == t[i].last());
        }
    }
}

/// Una ruta ya normalizada no cambia al normalizarla.
#[verifier::rlimit(80)]
proof fn lema_normal_de_limpio(t: Seq<Seq<char>>)
    requires
        forall|k: int| 0 <= k < t.len() ==> segmento_limpio(#[trigger] t[k]),
        forall|k: int| 0 <= k < t.len() ==> !es_imagenes(#[trigger] t[k]),
    ensures
        imagen_normalizada("imagenes"@ + unir_desde(t, 0)) == "imagenes"@ + unir_desde(t, 0),
{
    reveal_strlit("imagenes");
    let x = "imagenes"@;
    let s = x + unir_desde(t, 0);
    lema_unir_forma(t, 0);
    if t.len() > 0 {
        assert(segmento_limpio(t[t.len() - 1]));
        lema_recortado(t.last());
        assert(s.last() == t.last().last());
    }
    assert(s[0] == 'i');
    lema_ya_recortado(s);
    lema_ya_recortado(x);
    assert(segmento_limpio(x));
    lema_trozos_union(x, t, 0);
    assert(t.subrange(0, t.len() as int) =~= t);
    let ps = seq![x] + t;
    assert forall|k: int| 0 <= k < ps.len() implies segmento_limpio(#[trigger] ps[k]) by {
        if k > 0 {
            assert(ps[k] == t[k - 1]);
        }
    }
    lema_segmentos_de_limpios(ps);
    lema_ultima_es_la_primera(t);
    lema_unir_desplaza(ps, 1);
    assert(ps.subrange(1, ps.len() as int) =~= t);
}

/// No hay segmentos útiles exactamente cuando ningún trozo es útil.
proof fn lema_sin_segmentos(ps: Seq<Seq<char>>)
    ensures
        segmentos(ps).len() == 0 <==> forall|k: int| 0 <= k < ps.len() ==> !util(#[trigger] ps[k]),
    decreases ps.len(),
{
    if ps.len() > 0 {
        lema_sin_segmentos(ps.drop_last());
        if segmentos(ps).len() == 0 {
            assert forall|k: int| 0 <= k < ps.len() implies !util(#[trigger] ps[k]) by {
                if k < ps.len() - 1 {
                    assert(ps.drop_last()[k] == ps[k]);
                }
            }
        } else {
            if forall|k: int| 0 <= k < ps.len() ==> !util(#[trigger] ps[k]) {
                assert(!util(ps[ps.len() - 1]));
                assert forall|k: int| 0 <= k < ps.drop_last().len() implies !util(#[trigger] ps.drop_last()[k]) by {
                    assert(ps.drop_last()[k] == ps[k]);
                }
            }
        }
    }
}

/// Normalizar una ruta de imagen da la cadena vacía o una ruta relativa que
/// empieza por `imagenes` (seguida de `/` si sigue algo), sin `\`; y
/// normalizar de nuevo no la cambia.
#[verifier::rlimit(80)]
pub proof fn ley_imagen_normalizada(ruta: Seq<char>)
    ensures
        imagen_normalizada(imagen_normalizada(ruta)) == imagen_normalizada(ruta),
        imagen_normalizada(ruta).len() == 0 || (imagen_normalizada(ruta).len() >= 8
            && imagen_normalizada(ruta).subrange(0, 8) == "imagenes"@),
        imagen_normalizada(ruta).len() > 8 ==> imagen_normalizada(ruta)[8] == '/',
        !imagen_normalizada(ruta).contains('\\'),
{
    reveal_strlit("imagenes");
    reveal_strlit("imagenes/");
    let out = imagen_normalizada(ruta);
    let limpio = recortado(ruta);
    let segs = segmentos(trozos(limpio));
    if limpio.len() == 0 || segs.len() == 0 {
        assert(out =~= Seq::<char>::empty());
        assert(imagen_normalizada(out) =~= Seq::<char>::empty());
    } else {
        lema_trozos_sin_separador(limpio);
        lema_segmentos_limpios_de(trozos(limpio));
        lema_ultima_imagenes(segs);
        let t = match ultima_imagenes(segs) {
            Some(i) => segs.subrange(i + 1, segs.len() as int),
            None => seq![segs.last()],
        };
        assert forall|k: int| 0 <= k < t.len() implies segmento_limpio(#[trigger] t[k]) && !es_imagenes(t[k]) by {
            match ultima_imagenes(segs) {
                Some(i) => {
                    assert(t[k] == segs[i + 1 + k]);
                },
                None => {
                    assert(t[k] == segs[segs.len() - 1]);
                },
            }
        }
        match ultima_imagenes(segs) {
            Some(i) => {
                lema_unir_desplaza(segs, i + 1);
            },
            None => {
                assert(unir_desde(t, 1) =~= Seq::<char>::empty());
                assert(out =~= "imagenes"@ + unir_desde(t, 0));
            },
        }
        assert(out == "imagenes"@ + unir_desde(t, 0));
        lema_normal_de_limpio(t);
        lema_unir_forma(t, 0);
        assert(out.subrange(0, 8) =~= "imagenes"@);
        if out.len() > 8 {
            assert(t.len() > 0);
            assert(out[8] == unir_desde(t, 0)[0]);
        }
        if out.contains('\\') {
            let k = choose|k: int| 0 <= k < out.len() && out[k] == '\\';
            if k >= 8 {
                assert(unir_desde(t, 0)[k - 8] == '\\');
            }
        }
    }
}

proof fn lema_trozos_no_vacio(s: Seq<char>)
    ensures
        trozos(s).len() >= 1,
    decreases s.len(),
{
    if s.len() > 0 {
        lema_trozos_no_vacio(s.drop_last());
    }
}

/// Los trozos de `s`.
fn partir(s: &Vec<char>) -> (r: Vec<Vec<char>>)
    ensures
        r@.map_values(|v: Vec<char>| v@) == trozos(s@),
{
    let mut r: Vec<Vec<char>> = Vec::new();
    r.push(Vec::new());
    let mut i: usize = 0;
    assert(r@.map_values(|v: Vec<char>| v@) =~= trozos(s@.subrange(0, 0)));
    while i < s.len()
        invariant
            i <= s.len(),
            r@.len() >= 1,
            r@.map_values(|v: Vec<char>| v@) == trozos(s@.subrange(0, i as int)),
        decreases s.len() - i,
    {
        let ghost pre = s@.subrange(0, i as int);
        let ghost post = s@.subrange(0, i + 1);
        assert(post.drop_last() =~= pre);
        let ghost r0 = r@.map_values(|v: Vec<char>| v@);
        let c = s[i];
        if c == '/' || c == '\\' {
            r.push(Vec::new());
            assert(r@.map_values(|v: Vec<char>| v@) =~= r0.push(Seq::empty()));
        } else {
            let mut ultimo = r.pop().unwrap();
            ultimo.push(c);
            r.push(ultimo);
            assert(r@.map_values(|v: Vec<char>| v@) =~= r0.update(r0.len() - 1, r0.last().push(c)));
        }
        i += 1;
    }
    assert(s@.subrange(0, s.len() as int) =~= s@);
    r
}

/// Segmentos útiles de una lista de trozos.
fn utiles(ps: &Vec<Vec<char>>) -> (r: Vec<Vec<char>>)
    ensures
        r@.map_values(|v: Vec<char>| v@) == segmentos(ps@.map_values(|v: Vec<char>| v@)),
{
    let ghost vp = ps@.map_values(|v: Vec<char>| v@);
    let mut r: Vec<Vec<char>> = Vec::new();
    let mut i: usize = 0;
    assert(r@.map_values(|v: Vec<char>| v@) =~= segmentos(vp.subrange(0, 0)));
    while i < ps.len()
        invariant
            i <= ps.len(),
            vp == ps@.map_values(|v: Vec<char>| v@),
            r@.map_values(|v: Vec<char>| v@) == segmentos(vp.subrange(0, i as int)),
        decreases ps.len() - i,
    {
        assert(vp.subrange(0, i + 1).drop_last() =~= vp.subrange(0, i as int));
        assert(vp[i as int] == ps@[i as int]@);
        let ghost r0 = r@.map_values(|v: Vec<char>| v@);
        let t = recortar(&ps[i]);
        if t.len() > 0 && !(t.len() == 1 && t[0] == '.') {
            proof {
                if t@ == seq!['.'] {
                    assert(t@[0] == '.');
                }
            }
            r.push(t);
            assert(r@.map_values(|v: Vec<char>| v@) =~= r0.push(recortado(vp[i as int])));
        } else {
            proof {
                if t.len() == 1 && t[0] == '.' {
                    assert(t@ =~= seq!['.']);
                }
            }
        }
        i += 1;
    }
    assert(vp.subrange(0, ps.len() as int) =~= vp);
    r
}

/// Convierte una ruta de imagen del álbum de origen en una ruta relativa
/// `imagenes/<...>` con barras normales. Cadena vacía o solo blancos da la
/// cadena vacía (registro sin imagen). `dir_mdb`, la carpeta del álbum de
/// origen, no interviene: la salida es siempre relativa.
///
/// Ejemplos: `G:\MIC\imagenes\foto.jpg` → `imagenes/foto.jpg`;
/// `.\imagenes\sub\f.jpg` → `imagenes/sub/f.jpg`;
/// `C:\Datos\IMAGENES\F.JPG` → `imagenes/F.JPG`; `foto.jpg` → `imagenes/foto.jpg`.
pub fn normalizar_imagen(ruta_original: &str, dir_mdb: &std::path::PathBuf) -> (r: String)
    ensures
        r@ == imagen_normalizada(ruta_original@),
{
    let limpio = recortar(&caracteres(ruta_original));
    if limpio.len() == 0 {
        return String::new();
    }
    let segs = utiles(&partir(&limpio));
    let ghost vs = segs@.map_values(|v: Vec<char>| v@);
    assert(vs == segmentos(trozos(recortado(ruta_original@))));
    if segs.len() == 0 {
        return String::new();
    }
    let imagenes = caracteres("imagenes");
    proof {
        reveal_strlit("imagenes");
    }
    let mut pos: Option<usize> = None;
    let mut j: usize = segs.len();
    assert(vs.subrange(0, segs.len() as int) =~= vs);
    while j > 0 && pos.is_none()
        invariant
            j <= segs.len(),
            vs == segs@.map_values(|v: Vec<char>| v@),
            imagenes@ == "imagenes"@,
            pos is None ==> ultima_imagenes(vs) == ultima_imagenes(vs.subrange(0, j as int)),
            pos matches Some(p) ==> p < segs.len() && ultima_imagenes(vs) == Some(p as int),
        decreases j,
    {
        let ghost sub = vs.subrange(0, j as int);
        assert(sub.drop_last() =~= vs.subrange(0, j - 1));
        assert(sub.last() == segs@[j - 1]@);
        if iguales_sin_caja(&segs[j - 1], &imagenes) {
            pos = Some(j - 1);
        }
        j -= 1;
    }
    proof {
        if pos is None {
            assert(vs.subrange(0, 0) =~= Seq::<Seq<char>>::empty());
        }
    }
    let mut out: Vec<char> = imagenes;
    match pos {
        Some(i) => {
            let mut k: usize = i + 1;
            assert(out@ + unir_desde(vs, k as int) == "imagenes"@ + unir_desde(vs, i + 1));
            while k < segs.len()
                invariant
                    i < k <= segs.len(),
                    vs == segs@.map_values(|v: Vec<char>| v@),
                    out@ + unir_desde(vs, k as int) == "imagenes"@ + unir_desde(vs, i + 1),
                decreases segs.len() - k,
            {
                let ghost o0 = out@;
                out.push('/');
                let seg = &segs[k];
                let mut m: usize = 0;
                while m < seg.len()
                    invariant
                        m <= seg.len(),
                        out@ == o0 + seq!['/'] + seg@.subrange(0, m as int),
                    decreases seg.len() - m,
                {
                    out.push(seg[m]);
                    m += 1;
                    assert(out@ =~= o0 + seq!['/'] + seg@.subrange(0, m as int));
                }
                assert(seg@.subrange(0, seg.len() as int) =~= seg@);
                assert(vs[k as int] == seg@);
                assert(o0 + unir_desde(vs, k as int) =~= out@ + unir_desde(vs, k + 1));
                k += 1;
            }
            assert(out@ + unir_desde(vs, k as int) =~= out@);
            assert(out@ == imagen_normalizada(ruta_original@));
        },
        None => {
            let ghost o0 = out@;
            out.push('/');
            let ultimo = &segs[segs.len() - 1];
            let mut m: usize = 0;
            while m < ultimo.len()
                invariant
                    m <= ultimo.len(),
                    out@ == o0 + seq!['/'] + ultimo@.subrange(0, m as int),
                decreases ultimo.len() - m,
            {
                out.push(ultimo[m]);
                m += 1;
                assert(out@ =~= o0 + seq!['/'] + ultimo@.subrange(0, m as int));
            }
            proof {
                reveal_strlit("imagenes/");
                assert(ultimo@.subrange(0, ultimo.len() as int) =~= ultimo@);
                assert(out@ =~= "imagenes/"@ + vs.last());
                assert(out@ == imagen_normalizada(ruta_original@));
            }
        },
    }
    cadena(&out)
}

/// El último trozo de `s` (tras el último separador).
pub open spec fn ultimo_trozo(s: Seq<char>) -> Seq<char> {
    trozos(s).last()
}

proof fn lema_ultimo_trozo(s: Seq<char>, k: int)
    requires
        -1 <= k < s.len(),
        k >= 0 ==> es_separador(s[k]),
        forall|m: int| k < m < s.len() ==> !es_separador(#[trigger] s[m]),
    ensures
        ultimo_trozo(s) == s.subrange(k + 1, s.len() as int),
    decreases s.len(),
{
    lema_trozos_no_vacio(s);
    if s.len() > 0 {
        lema_trozos_no_vacio(s.drop_last());
        if k == s.len() - 1 {
        } else {
            assert(!es_separador(s.last()));
            assert forall|m: int| k < m < s.drop_last().len() implies !es_separador(
                #[trigger] s.drop_last()[m],
            ) by {
                assert(s.drop_last()[m] == s[m]);
            }
            if k >= 0 {
                assert(s.drop_last()[k] == s[k]);
            }
            lema_ultimo_trozo(s.drop_last(), k);
            assert(s.subrange(k + 1, s.len() as int) =~= s.drop_last().subrange(
                k + 1,
                s.len() - 1,
            ).push(s.last()));
        }
    } else {
        assert(s.subrange(0, 0) =~= Seq::<char>::empty());
    }
}

/// Nombre de archivo de una ruta (normalizada o de origen): el último
/// segmento tras `/` o `\`, sin blancos en los extremos.
pub fn nombre_archivo(ruta_rel: &str) -> (r: &str)
    ensures
        r@ == recortado(ultimo_trozo(ruta_rel@)),
{
    let v = caracteres(ruta_rel);
    let mut k: usize = v.len();
    while k > 0 && !(v[k - 1] == '/' || v[k - 1] == '\\')
        invariant
            k <= v.len(),
            v@ == ruta_rel@,
            forall|m: int| k <= m < v.len() ==> !es_separador(#[trigger] v@[m]),
        decreases k,
    {
        k -= 1;
    }
    proof {
        lema_ultimo_trozo(v@, k - 1);
    }
    let (a, b) = limites_recorte(&v, k, v.len());
    ruta_rel.substring_char(a, b)
}

/// `s` sin todas las repeticiones iniciales de `p`
/// (`str::trim_start_matches`).
pub open spec fn sin_prefijos(s: Seq<char>, p: Seq<char>) -> Seq<char>
    decreases s.len(),
{
    if p.len() > 0 && s.len() >= p.len() && s.subrange(0, p.len() as int) == p {
        sin_prefijos(s.subrange(p.len() as int, s.len() as int), p)
    } else {
        s
    }
}

/// `s` comienza en la posición `i` con `p`.
fn empieza_en(s: &Vec<char>, i: usize, p: &Vec<char>) -> (r: bool)
    requires
        i <= s.len(),
    ensures
        r == (s@.len() - i >= p@.len() && s@.subrange(i as int, i + p@.len()) == p@),
{
    if s.len() - i < p.len() {
        return false;
    }
    let mut k: usize = 0;
    while k < p.len()
        invariant
            k <= p.len(),
            i + p.len() <= s.len(),
            forall|j: int| 0 <= j < k ==> s@[i + j] == p@[j],
        decreases p.len() - k,
    {
        if s[i + k] != p[k] {
            assert(s@.subrange(i as int, i + p@.len())[k as int] != p@[k as int]);
            return false;
        }
        k += 1;
    }
    assert(s@.subrange(i as int, i + p@.len()) =~= p@);
    true
}

/// `s` sin todas las repeticiones iniciales de `p`.
fn quitar_prefijos(s: &Vec<char>, p: &Vec<char>) -> (r: Vec<char>)
    requires
        p.len() > 0,
    ensures
        r@ == sin_prefijos(s@, p@),
{
    let mut i: usize = 0;
    assert(s@.subrange(0, s.len() as int) =~= s@);
    while empieza_en(s, i, p)
        invariant
            i <= s.len(),
            p.len() > 0,
            sin_prefijos(s@, p@) == sin_prefijos(s@.subrange(i as int, s.len() as int), p@),
        decreases s.len() - i,
    {
        let ghost resto = s@.subrange(i as int, s.len() as int);
        assert(resto.subrange(0, p@.len() as int) =~= s@.subrange(i as int, i + p@.len()));
        assert(resto.subrange(p@.len() as int, resto.len() as int) =~= s@.subrange(
            i + p@.len(),
            s.len() as int,
        ));
        i = i + p.len();
    }
    let ghost resto = s@.subrange(i as int, s.len() as int);
    assert(!(resto.len() >= p@.len() && resto.subrange(0, p@.len() as int) == p@)) by {
        if resto.len() >= p@.len() {
            assert(resto.subrange(0, p@.len() as int) =~= s@.subrange(i as int, i + p@.len()));
        }
    }
    let mut r: Vec<char> = Vec::new();
    let mut k: usize = i;
    while k < s.len()
        invariant
            i <= k <= s.len(),
            r@ == s@.subrange(i as int, k as int),
        decreases s.len() - k,
    {
        r.push(s[k]);
        k += 1;
        assert(r@ =~= s@.subrange(i as int, k as int));
    }
    r
}

/// Ruta de una imagen dentro de la carpeta de imágenes: sin los prefijos
/// `imagenes/` y luego sin las barras iniciales.
pub fn dentro_de_imagenes(ruta_rel: &str) -> (r: String)
    ensures
        r@ == sin_prefijos(sin_prefijos(ruta_rel@, "imagenes/"@), "/"@),
{
    proof {
        reveal_strlit("imagenes/");
        reveal_strlit("/");
    }
    let a = quitar_prefijos(&caracteres(ruta_rel), &caracteres("imagenes/"));
    let b = quitar_prefijos(&a, &caracteres("/"));
    cadena(b.as_slice())
}
/// Una ruta de imagen se normaliza a la cadena vacía exactamente cuando
/// todos los trozos de la ruta recortada, partida por `/` y `\`, quedan
/// vacíos o en `.` al recortarlos.
pub proof fn ley_imagen_vacia(ruta: Seq<char>)
    ensures
        imagen_normalizada(ruta).len() == 0 <==> forall|k: int|
            0 <= k < trozos(recortado(ruta)).len() ==> !util(#[trigger] trozos(recortado(ruta))[k]),
{
    reveal_strlit("imagenes");
    reveal_strlit("imagenes/");
    let limpio = recortado(ruta);
    lema_sin_segmentos(trozos(limpio));
    if limpio.len() == 0 {
        assert(limpio =~= Seq::<char>::empty());
        assert(trozos(limpio) =~= seq![Seq::<char>::empty()]);
        assert(!util(trozos(limpio)[0]));
    }
}

} // verus!
