//! Listas que la aplicación guarda en su configuración: los álbumes abiertos
//! recientemente y las plantillas de álbum nuevo.

use vstd::prelude::*;
use vstd::string::*;
use crate::migrador::migrar::{a_minusculas, minusculas_unicode};
use crate::model::CampoNuevo;
use crate::texto::{concatenar, concatenar3};

verus! {

/// Máximo de entradas que conserva la lista de recientes.
pub const MAX_RECIENTES: usize = 20;

/// Entrada de la lista de álbumes recientes (ruta y nombre mostrado).
#[derive(Debug, Clone)]
pub struct AlbumReciente {
    pub ruta: String,
    pub nombre: String,
}

impl AlbumReciente {
    /// Copia campo a campo de la entrada.
    pub fn copia(&self) -> (r: AlbumReciente)
        ensures
            r == *self,
    {
        AlbumReciente { ruta: self.ruta.clone(), nombre: self.nombre.clone() }
    }
}

/// Las entradas de `lista` cuya ruta no es `ruta`, en su orden.
pub open spec fn sin_ruta(lista: Seq<AlbumReciente>, ruta: Seq<char>) -> Seq<AlbumReciente>
    decreases lista.len(),
{
    if lista.len() == 0 {
        Seq::empty()
    } else {
        let previo = sin_ruta(lista.drop_last(), ruta);
        if lista.last().ruta@ == ruta {
            previo
        } else {
            previo.push(lista.last())
        }
    }
}

/// Los primeros `n` elementos de `s` (todos, si tiene menos).
pub open spec fn primeros<A>(s: Seq<A>, n: nat) -> Seq<A> {
    if s.len() <= n {
        s
    } else {
        s.take(n as int)
    }
}

/// La lista de recientes tras abrir el álbum `ruta` de nombre `nombre`: la
/// entrada nueva primero, después las demás sin la que tuviera esa ruta, y
/// como mucho [`MAX_RECIENTES`] entradas.
pub open spec fn promovida(lista: Seq<AlbumReciente>, nueva: AlbumReciente) -> Seq<AlbumReciente> {
    primeros(seq![nueva] + sin_ruta(lista, nueva.ruta@), MAX_RECIENTES as nat)
}

proof fn lema_sin_ruta_longitud(lista: Seq<AlbumReciente>, ruta: Seq<char>)
    ensures
        sin_ruta(lista, ruta).len() <= lista.len(),
        forall|k: int|
            0 <= k < sin_ruta(lista, ruta).len() ==> (#[trigger] sin_ruta(lista, ruta)[k]).ruta@
                != ruta,
    decreases lista.len(),
{
    if lista.len() > 0 {
        lema_sin_ruta_longitud(lista.drop_last(), ruta);
    }
}

/// Tras abrir un álbum, su entrada encabeza la lista de recientes, ninguna
/// otra entrada tiene su ruta y la lista no pasa de [`MAX_RECIENTES`].
pub proof fn ley_reciente_primero(lista: Seq<AlbumReciente>, nueva: AlbumReciente)
    ensures
        promovida(lista, nueva).len() >= 1,
        promovida(lista, nueva).len() <= MAX_RECIENTES,
        promovida(lista, nueva)[0] == nueva,
        forall|k: int|
            1 <= k < promovida(lista, nueva).len() ==> (#[trigger] promovida(lista, nueva)[k]).ruta@
                != nueva.ruta@,
{
    lema_sin_ruta_longitud(lista, nueva.ruta@);
    let s = seq![nueva] + sin_ruta(lista, nueva.ruta@);
    assert forall|k: int| 1 <= k < promovida(lista, nueva).len() implies (#[trigger] promovida(
        lista,
        nueva,
    )[k]).ruta@ != nueva.ruta@ by {
        assert(promovida(lista, nueva)[k] == s[k]);
        assert(s[k] == sin_ruta(lista, nueva.ruta@)[k - 1]);
    }
}

/// Otra entrada que la de `ruta`.
pub open spec fn otra_ruta(ruta: Seq<char>) -> spec_fn(AlbumReciente) -> bool {
    |e: AlbumReciente| e.ruta@ != ruta
}

proof fn lema_sin_ruta_filtra(lista: Seq<AlbumReciente>, ruta: Seq<char>)
    ensures
        sin_ruta(lista, ruta) == lista.filter(otra_ruta(ruta)),
    decreases lista.len(),
{
    reveal(Seq::filter);
    if lista.len() > 0 {
        lema_sin_ruta_filtra(lista.drop_last(), ruta);
        assert(otra_ruta(ruta)(lista.last()) == (lista.last().ruta@ != ruta));
    }
}

/// Al abrir un álbum, su entrada va primero y después vienen las demás
/// entradas de la lista, sin la de su ruta y en el mismo orden relativo que
/// tenían (el filtro de la secuencia), hasta [`MAX_RECIENTES`] en total.
pub proof fn ley_reciente_conserva_orden(lista: Seq<AlbumReciente>, nueva: AlbumReciente)
    ensures
        promovida(lista, nueva) == primeros(
            seq![nueva] + lista.filter(otra_ruta(nueva.ruta@)),
            MAX_RECIENTES as nat,
        ),
{
    lema_sin_ruta_filtra(lista, nueva.ruta@);
}

/// Pone el álbum `ruta` al principio de la lista de recientes, quita la
/// entrada anterior con la misma ruta y recorta la lista a
/// [`MAX_RECIENTES`] entradas.
pub fn promover_reciente(lista: &Vec<AlbumReciente>, ruta: String, nombre: String) -> (r: Vec<
    AlbumReciente,
>)
    ensures
        r@ == promovida(lista@, AlbumReciente { ruta, nombre }),
{
    let ghost nueva = AlbumReciente { ruta, nombre };
    let mut r: Vec<AlbumReciente> = Vec::new();
    let mut i: usize = 0;
    while i < lista.len()
        invariant
            i <= lista.len(),
            r@ == sin_ruta(lista@.subrange(0, i as int), ruta@),
        decreases lista.len() - i,
    {
        let ghost sub = lista@.subrange(0, i + 1);
        assert(sub.drop_last() =~= lista@.subrange(0, i as int));
        if lista[i].ruta != ruta {
            r.push(lista[i].copia());
        }
        i += 1;
    }
    assert(lista@.subrange(0, i as int) =~= lista@);
    r.insert(0, AlbumReciente { ruta, nombre });
    assert(r@ =~= seq![nueva] + sin_ruta(lista@, nueva.ruta@));
    r.truncate(MAX_RECIENTES);
    r
}

/// Una plantilla de álbum: un nombre y los campos iniciales.
#[derive(Debug, Clone)]
pub struct Plantilla {
    pub nombre: String,
    pub campos: Vec<CampoNuevo>,
}

/// Posición de la primera plantilla de nombre `nombre`, si alguna.
pub open spec fn primera_plantilla(lista: Seq<Plantilla>, nombre: Seq<char>) -> Option<int>
    decreases lista.len(),
{
    if lista.len() == 0 {
        None
    } else {
        match primera_plantilla(lista.drop_last(), nombre) {
            Some(i) => Some(i),
            None => if lista.last().nombre@ == nombre {
                Some(lista.len() - 1)
            } else {
                None
            },
        }
    }
}

proof fn lema_primera_en_rango(l: Seq<Plantilla>, nombre: Seq<char>)
    ensures
        primera_plantilla(l, nombre) matches Some(i) ==> 0 <= i < l.len() && l[i].nombre@
            == nombre,
    decreases l.len(),
{
    if l.len() > 0 {
        lema_primera_en_rango(l.drop_last(), nombre);
    }
}

proof fn lema_primera_plantilla(l: Seq<Plantilla>, m: int, nombre: Seq<char>)
    requires
        0 <= m <= l.len(),
        primera_plantilla(l.subrange(0, m), nombre) is Some,
    ensures
        primera_plantilla(l, nombre) == primera_plantilla(l.subrange(0, m), nombre),
    decreases l.len() - m,
{
    if m < l.len() {
        assert(l.subrange(0, m + 1).drop_last() =~= l.subrange(0, m));
        lema_primera_plantilla(l, m + 1, nombre);
    } else {
        assert(l.subrange(0, m) =~= l);
    }
}

/// Posición de la primera plantilla llamada `nombre`.
fn buscar_plantilla(lista: &Vec<Plantilla>, nombre: &String) -> (r: Option<usize>)
    ensures
        match primera_plantilla(lista@, nombre@) {
            Some(i) => r == Some(i as usize),
            None => r is None,
        },
{
    let mut i: usize = 0;
    while i < lista.len()
        invariant
            i <= lista.len(),
            primera_plantilla(lista@.subrange(0, i as int), nombre@) is None,
        decreases lista.len() - i,
    {
        let ghost sub = lista@.subrange(0, i + 1);
        assert(sub.drop_last() =~= lista@.subrange(0, i as int));
        if lista[i].nombre == *nombre {
            proof {
                lema_primera_plantilla(lista@, i + 1, nombre@);
            }
            return Some(i);
        }
        i += 1;
    }
    assert(lista@.subrange(0, i as int) =~= lista@);
    None
}

/// Guarda una plantilla por nombre: si ya hay una con ese nombre (la
/// primera), sustituye sus campos; si no, la añade al final.
pub fn guardar_plantilla(lista: &mut Vec<Plantilla>, nombre: String, campos: Vec<CampoNuevo>)
    ensures
        match primera_plantilla(old(lista)@, nombre@) {
            Some(i) => final(lista)@ == old(lista)@.update(i, Plantilla { nombre, campos }),
            None => final(lista)@ == old(lista)@.push(Plantilla { nombre, campos }),
        },
{
    proof {
        lema_primera_en_rango(lista@, nombre@);
    }
    match buscar_plantilla(lista, &nombre) {
        Some(i) => {
            lista.set(i, Plantilla { nombre, campos });
        },
        None => {
            lista.push(Plantilla { nombre, campos });
        },
    }
}

/// Las plantillas de `lista` que no se llaman `nombre`, en su orden.
pub open spec fn sin_plantilla(lista: Seq<Plantilla>, nombre: Seq<char>) -> Seq<Plantilla>
    decreases lista.len(),
{
    if lista.len() == 0 {
        Seq::empty()
    } else {
        let previo = sin_plantilla(lista.drop_last(), nombre);
        if lista.last().nombre@ == nombre {
            previo
        } else {
            previo.push(lista.last())
        }
    }
}

/// Quita todas las plantillas llamadas `nombre` (no falla si no hay
/// ninguna).
pub fn eliminar_plantilla(lista: Vec<Plantilla>, nombre: &String) -> (r: Vec<Plantilla>)
    ensures
        r@ == sin_plantilla(lista@, nombre@),
{
    let mut r: Vec<Plantilla> = Vec::new();
    let mut resto = lista;
    let ghost original = resto@;
    let total: usize = resto.len();
    let mut i: usize = 0;
    while resto.len() > 0
        invariant
            i + resto@.len() == original.len(),
            original.len() == total,
            resto@ == original.subrange(i as int, original.len() as int),
            r@ == sin_plantilla(original.subrange(0, i as int), nombre@),
        decreases resto@.len(),
    {
        let p = resto.remove(0);
        let ghost sub = original.subrange(0, i + 1);
        assert(sub.drop_last() =~= original.subrange(0, i as int));
        assert(p == original[i as int]);
        if p.nombre != *nombre {
            r.push(p);
        }
        i += 1;
        assert(resto@ =~= original.subrange(i as int, original.len() as int));
    }
    assert(original.subrange(0, i as int) =~= original);
    r
}

/// Resultado de asignar una imagen a un registro: ruta relativa guardada y
/// su versión (marca de modificación).
#[derive(Debug, Clone)]
pub struct ImagenSet {
    pub imagen: String,
    pub imagen_version: i64,
}

/// Extensiones (en minúsculas) de los archivos que se toman como imagen al
/// crear registros desde una carpeta.
pub open spec fn extensiones_imagen() -> Seq<Seq<char>> {
    seq!["jpg"@, "jpeg"@, "png"@, "gif"@, "webp"@, "bmp"@, "tiff"@, "tif"@]
}

/// Un archivo con esa extensión es una imagen (sin distinguir mayúsculas).
pub fn es_extension_imagen(ext: &str) -> (r: bool)
    ensures
        r == extensiones_imagen().contains(minusculas_unicode(ext@)),
{
    let m = a_minusculas(ext);
    let lista: [&str; 8] = ["jpg", "jpeg", "png", "gif", "webp", "bmp", "tiff", "tif"];
    proof {
        reveal_strlit("jpg");
        reveal_strlit("jpeg");
        reveal_strlit("png");
        reveal_strlit("gif");
        reveal_strlit("webp");
        reveal_strlit("bmp");
        reveal_strlit("tiff");
        reveal_strlit("tif");
    }
    let ghost vl = lista@.map_values(|x: &str| x@);
    assert(vl =~= extensiones_imagen());
    let mut i: usize = 0;
    while i < 8
        invariant
            i <= 8,
            lista@.len() == 8,
            vl == lista@.map_values(|x: &str| x@),
            vl == extensiones_imagen(),
            m@ == minusculas_unicode(ext@),
            forall|k: int| 0 <= k < i ==> vl[k] != m@,
        decreases 8 - i,
    {
        let x = String::from_str(lista[i]);
        if x == m {
            assert(vl[i as int] == m@);
            return true;
        }
        i += 1;
    }
    false
}

/// Nombre de una imagen copiada al álbum: el nombre original, `_`, un
/// sufijo único y, si la tenía, la extensión original.
pub open spec fn nombre_con_sufijo_spec(base: Seq<char>, sufijo: Seq<char>, ext: Option<Seq<char>>) -> Seq<char> {
    match ext {
        Some(e) => base + "_"@ + sufijo + "."@ + e,
        None => base + "_"@ + sufijo,
    }
}

/// El nombre con que se guarda una imagen copiada al álbum.
pub fn nombre_con_sufijo(base: &str, sufijo: &str, ext: Option<&str>) -> (r: String)
    ensures
        r@ == nombre_con_sufijo_spec(
            base@,
            sufijo@,
            match ext {
                Some(e) => Some(e@),
                None => None,
            },
        ),
{
    proof {
        reveal_strlit("_");
        reveal_strlit(".");
    }
    let mut r = concatenar3(base, "_", sufijo);
    match ext {
        Some(e) => {
            r.append(".");
            r.append(e);
        },
        None => {},
    }
    r
}

/// Ruta relativa al álbum de una imagen de su carpeta: `imagenes/<nombre>`.
pub fn ruta_en_album(nombre: &str) -> (r: String)
    ensures
        r@ == "imagenes/"@ + nombre@,
{
    concatenar("imagenes/", nombre)
}
} // verus!
