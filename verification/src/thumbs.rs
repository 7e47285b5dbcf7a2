//! Miniaturas: tamaño de destino de una reducción y la caché en memoria que
//! recuerda qué archivo de miniatura corresponde a cada imagen y tamaño.
//!
//! La miniatura se forma aquí a partir de los bytes de la imagen: se
//! decodifica con `image` (con su orientación EXIF), se reduce con
//! `fast_image_resize` y se codifica en JPEG. El acceso al disco (leer la
//! imagen, escribir la miniatura, existencia de archivos, marcas de
//! modificación, borrado) queda fuera de la biblioteca verificada; quien lo
//! hace consulta y actualiza esta caché.

use vstd::prelude::*;
use std::path::PathBuf;
use image::{ImageDecoder, ImageEncoder};
use crate::error::{MicError, MicErrorSpec};
use crate::texto::concatenar3;

verus! {

/// Lado reducido a escala `size / mayor`, redondeado al entero más cercano
/// (las mitades hacia arriba) y con un mínimo de 1.
pub open spec fn lado_reducido(lado: int, size: int, mayor: int) -> int {
    let r = (2 * (lado * size) + mayor) / (2 * mayor);
    if r < 1 {
        1
    } else {
        r
    }
}

/// Dimensiones de destino de una imagen `ancho`×`alto` reducida a lado mayor
/// `size`: sin cambios si ya cabe; si no, cada lado a escala.
pub open spec fn dimensiones_spec(ancho: u32, alto: u32, size: u32) -> (int, int) {
    let mayor: int = if ancho >= alto {
        ancho as int
    } else {
        alto as int
    };
    if mayor <= size {
        (ancho as int, alto as int)
    } else {
        (lado_reducido(ancho as int, size as int, mayor), lado_reducido(alto as int, size as int, mayor))
    }
}

proof fn lema_lado_acotado(lado: int, size: int, mayor: int)
    requires
        0 <= lado <= mayor,
        0 <= size < mayor,
    ensures
        1 <= lado_reducido(lado, size, mayor) <= mayor,
        lado_reducido(lado, size, mayor) <= size || lado_reducido(lado, size, mayor) == 1,
{
    assert(lado * size <= mayor * size) by (nonlinear_arith)
        requires
            0 <= lado <= mayor,
            0 <= size,
    ;
    let q = (2 * (lado * size) + mayor) / (2 * mayor);
    assert(q <= size) by (nonlinear_arith)
        requires
            q == (2 * (lado * size) + mayor) / (2 * mayor),
            lado * size <= mayor * size,
            0 <= size < mayor,
            0 <= lado,
    ;
}

/// Una miniatura nunca amplía: ningún lado de destino excede el original; y
/// si la imagen no cabe, su lado mayor pasa a medir exactamente `size`.
pub proof fn ley_miniatura_no_amplia(ancho: u32, alto: u32, size: u32)
    requires
        ancho >= 1,
        alto >= 1,
        size >= 1,
    ensures
        ({
            let (w, h) = dimensiones_spec(ancho, alto, size);
            &&& 1 <= w <= ancho
            &&& 1 <= h <= alto
            &&& (ancho > size || alto > size) ==> (if ancho >= alto { w == size } else { h == size })
        }),
{
    let mayor: int = if ancho >= alto { ancho as int } else { alto as int };
    if mayor > size {
        lema_no_amplia(ancho as int, size as int, mayor);
        lema_no_amplia(alto as int, size as int, mayor);
        lema_lado_mayor(size as int, mayor);
    }
}

proof fn lema_no_amplia(lado: int, size: int, mayor: int)
    requires
        1 <= lado <= mayor,
        1 <= size < mayor,
    ensures
        lado_reducido(lado, size, mayor) <= lado,
{
    let q = (2 * (lado * size) + mayor) / (2 * mayor);
    assert(q <= lado) by (nonlinear_arith)
        requires
            q == (2 * (lado * size) + mayor) / (2 * mayor),
            1 <= lado,
            1 <= size < mayor,
    ;
}

proof fn lema_lado_mayor(size: int, mayor: int)
    requires
        1 <= size < mayor,
    ensures
        lado_reducido(mayor, size, mayor) == size,
{
    let q = (2 * (mayor * size) + mayor) / (2 * mayor);
    assert(q == size) by (nonlinear_arith)
        requires
            q == (2 * (mayor * size) + mayor) / (2 * mayor),
            1 <= size < mayor,
    ;
}

/// Dimensiones de destino para que el lado mayor mida `size`, conservando la
/// relación de aspecto y sin ampliar imágenes que ya caben. Cada lado se
/// redondea al entero más cercano, con un mínimo de 1 píxel.
pub fn dimensiones_destino(ancho: u32, alto: u32, size: u32) -> (r: (u32, u32))
    ensures
        (r.0 as int, r.1 as int) == dimensiones_spec(ancho, alto, size),
{
    let mayor: u32 = if ancho >= alto {
        ancho
    } else {
        alto
    };
    if mayor <= size {
        return (ancho, alto);
    }
    proof {
        lema_lado_acotado(ancho as int, size as int, mayor as int);
        lema_lado_acotado(alto as int, size as int, mayor as int);
    }
    let m: u128 = mayor as u128;
    let s: u128 = size as u128;
    assert((ancho as u128) * s <= 0xFFFF_FFFF * 0xFFFF_FFFF) by (nonlinear_arith)
        requires
            ancho <= 0xFFFF_FFFF,
            s <= 0xFFFF_FFFF,
    ;
    assert((alto as u128) * s <= 0xFFFF_FFFF * 0xFFFF_FFFF) by (nonlinear_arith)
        requires
            alto <= 0xFFFF_FFFF,
            s <= 0xFFFF_FFFF,
    ;
    let pa: u128 = (ancho as u128) * s;
    let pb: u128 = (alto as u128) * s;
    let qa: u128 = (2 * pa + m) / (2 * m);
    let qb: u128 = (2 * pb + m) / (2 * m);
    let nuevo_ancho: u32 = if qa < 1 {
        1
    } else {
        qa as u32
    };
    let nuevo_alto: u32 = if qb < 1 {
        1
    } else {
        qb as u32
    };
    (nuevo_ancho, nuevo_alto)
}

/// Una entrada de la caché: ruta canónica de la imagen, tamaño pedido y ruta
/// del archivo de miniatura.
pub type EntradaThumb = (String, u32, PathBuf);

/// Lo que la caché recuerda: para cada `(ruta, size)`, la miniatura de la
/// última entrada con esa clave.
pub open spec fn mapa_de(entradas: Seq<EntradaThumb>) -> Map<(Seq<char>, u32), PathBuf>
    decreases entradas.len(),
{
    if entradas.len() == 0 {
        Map::empty()
    } else {
        let e = entradas.last();
        mapa_de(entradas.drop_last()).insert((e.0@, e.1), e.2)
    }
}

/// Las entradas de `entradas` que no cumplen `quitar`, en su orden.
pub open spec fn sin_entradas(
    entradas: Seq<EntradaThumb>,
    quitar: spec_fn((Seq<char>, u32)) -> bool,
) -> Seq<EntradaThumb>
    decreases entradas.len(),
{
    if entradas.len() == 0 {
        Seq::empty()
    } else {
        let e = entradas.last();
        let previo = sin_entradas(entradas.drop_last(), quitar);
        if quitar((e.0@, e.1)) {
            previo
        } else {
            previo.push(e)
        }
    }
}

proof fn lema_sin_entradas(entradas: Seq<EntradaThumb>, quitar: spec_fn((Seq<char>, u32)) -> bool)
    ensures
        mapa_de(sin_entradas(entradas, quitar)) =~= mapa_de(entradas).restrict(
            mapa_de(entradas).dom().filter(|k: (Seq<char>, u32)| !quitar(k)),
        ),
    decreases entradas.len(),
{
    if entradas.len() > 0 {
        let previas = entradas.drop_last();
        let e = entradas.last();
        lema_sin_entradas(previas, quitar);
        let m = mapa_de(entradas);
        let mp = mapa_de(previas);
        assert(m == mp.insert((e.0@, e.1), e.2));
        if quitar((e.0@, e.1)) {
            assert(sin_entradas(entradas, quitar) == sin_entradas(previas, quitar));
            assert(mp.restrict(mp.dom().filter(|k: (Seq<char>, u32)| !quitar(k))) =~= m.restrict(
                m.dom().filter(|k: (Seq<char>, u32)| !quitar(k)),
            ));
        } else {
            let sp = sin_entradas(previas, quitar);
            assert(sin_entradas(entradas, quitar) == sp.push(e));
            assert(sp.push(e).drop_last() =~= sp);
            assert(mp.restrict(mp.dom().filter(|k: (Seq<char>, u32)| !quitar(k))).insert(
                (e.0@, e.1),
                e.2,
            ) =~= m.restrict(m.dom().filter(|k: (Seq<char>, u32)| !quitar(k))));
        }
    }
}

/// Copia de una ruta (`PathBuf::clone`): la copia es igual al original.
#[verifier::external_body]
fn copia_ruta(p: &PathBuf) -> (r: PathBuf)
    ensures
        r == *p,
{
    p.clone()
}

/// Caché de miniaturas de un álbum: el directorio `<álbum>/.thumbs` donde
/// viven los archivos y, en memoria, la miniatura ya resuelta de cada
/// `(ruta de imagen, tamaño)`.
pub struct ThumbCache {
    /// Directorio raíz de miniaturas: `<dir_album>/.thumbs`.
    dir_thumbs: PathBuf,
    ram: Vec<EntradaThumb>,
}

impl ThumbCache {
    /// Contenido de la caché en memoria.
    pub closed spec fn mapa(&self) -> Map<(Seq<char>, u32), PathBuf> {
        mapa_de(self.ram@)
    }

    /// Directorio de las miniaturas.
    pub closed spec fn directorio(&self) -> PathBuf {
        self.dir_thumbs
    }

    /// Directorio de las miniaturas (`<dir_album>/.thumbs`).
    pub fn dir_thumbs(&self) -> (r: &PathBuf)
        ensures
            *r == self.directorio(),
    {
        &self.dir_thumbs
    }

    /// Crea una caché vacía cuyas miniaturas viven en `dir_thumbs`
    /// (`<dir_album>/.thumbs`).
    pub fn new(dir_thumbs: PathBuf) -> (r: ThumbCache)
        ensures
            r.mapa() == Map::<(Seq<char>, u32), PathBuf>::empty(),
            r.directorio() == dir_thumbs,
    {
        ThumbCache { dir_thumbs, ram: Vec::new() }
    }

    /// La miniatura recordada para `(ruta, size)`, si la hay.
    pub fn leer_ram(&self, ruta: &String, size: u32) -> (r: Option<PathBuf>)
        ensures
            match r {
                Some(p) => self.mapa().dom().contains((ruta@, size)) && p == self.mapa()[(
                    ruta@,
                    size,
                )],
                None => !self.mapa().dom().contains((ruta@, size)),
            },
    {
        let mut i: usize = self.ram.len();
        assert(self.ram@.subrange(0, i as int) =~= self.ram@);
        while i > 0
            invariant
                i <= self.ram@.len(),
                mapa_de(self.ram@).dom().contains((ruta@, size)) ==> mapa_de(
                    self.ram@.subrange(0, i as int),
                ).dom().contains((ruta@, size)) && mapa_de(self.ram@)[(ruta@, size)]
                    == mapa_de(self.ram@.subrange(0, i as int))[(ruta@, size)],
                !mapa_de(self.ram@).dom().contains((ruta@, size)) ==> !mapa_de(
                    self.ram@.subrange(0, i as int),
                ).dom().contains((ruta@, size)),
            decreases i,
        {
            let ghost sub = self.ram@.subrange(0, i as int);
            assert(sub.drop_last() =~= self.ram@.subrange(0, i - 1));
            let e = &self.ram[i - 1];
            if e.1 == size && e.0 == *ruta {
                return Some(copia_ruta(&e.2));
            }
            i -= 1;
        }
        None
    }

    /// Recuerda `ruta_thumb` como miniatura de `(ruta, size)`.
    pub fn escribir_ram(&mut self, ruta: String, size: u32, ruta_thumb: PathBuf)
        ensures
            final(self).mapa() == old(self).mapa().insert((ruta@, size), ruta_thumb),
            final(self).directorio() == old(self).directorio(),
    {
        self.eliminar_ram(&ruta, size);
        proof {
            assert(mapa_de(self.ram@.push((ruta, size, ruta_thumb))) == mapa_de(self.ram@).insert(
                (ruta@, size),
                ruta_thumb,
            )) by {
                assert(self.ram@.push((ruta, size, ruta_thumb)).drop_last() =~= self.ram@);
            }
        }
        self.ram.push((ruta, size, ruta_thumb));
        assert(self.mapa() =~= old(self).mapa().insert((ruta@, size), ruta_thumb));
    }

    /// Olvida la miniatura de `(ruta, size)`.
    pub fn eliminar_ram(&mut self, ruta: &String, size: u32)
        ensures
            final(self).mapa() == old(self).mapa().remove((ruta@, size)),
            final(self).directorio() == old(self).directorio(),
    {
        let ghost quitar = |k: (Seq<char>, u32)| k == (ruta@, size);
        self.retener(ruta, size, false, Ghost(quitar));
        proof {
            lema_sin_entradas(old(self).ram@, quitar);
        }
        assert(self.mapa() =~= old(self).mapa().remove((ruta@, size)));
    }

    /// Olvida las miniaturas de `ruta` en todos los tamaños; las de otras
    /// imágenes siguen en la caché.
    pub fn invalidar(&mut self, ruta: &String)
        ensures
            forall|k: (Seq<char>, u32)|
                #![trigger final(self).mapa().dom().contains(k)]
                final(self).mapa().dom().contains(k) == (old(self).mapa().dom().contains(k) && k.0
                    != ruta@),
            forall|k: (Seq<char>, u32)|
                final(self).mapa().dom().contains(k) ==> #[trigger] final(self).mapa()[k] == old(
                    self,
                ).mapa()[k],
            final(self).directorio() == old(self).directorio(),
    {
        let ghost quitar = |k: (Seq<char>, u32)| k.0 == ruta@;
        self.retener(ruta, 0, true, Ghost(quitar));
        proof {
            lema_sin_entradas(old(self).ram@, quitar);
        }
    }

    /// Quita de la memoria las entradas de `ruta` (todas si `todos_los_tamanos`;
    /// si no, solo la de `size`).
    fn retener(
        &mut self,
        ruta: &String,
        size: u32,
        todos_los_tamanos: bool,
        Ghost(quitar): Ghost<spec_fn((Seq<char>, u32)) -> bool>,
    )
        requires
            forall|k: (Seq<char>, u32)|
                #[trigger] quitar(k) == (k.0 == ruta@ && (todos_los_tamanos || k.1 == size)),
        ensures
            final(self).ram@ == sin_entradas(old(self).ram@, quitar),
            final(self).directorio() == old(self).directorio(),
    {
        let mut nuevas: Vec<EntradaThumb> = Vec::new();
        let mut viejas: Vec<EntradaThumb> = Vec::new();
        std::mem::swap(&mut viejas, &mut self.ram);
        let ghost original = viejas@;
        let total: usize = viejas.len();
        let mut i: usize = 0;
        while viejas.len() > 0
            invariant
                i + viejas@.len() == original.len(),
                original.len() == total,
                viejas@ == original.subrange(i as int, original.len() as int),
                nuevas@ == sin_entradas(original.subrange(0, i as int), quitar),
                forall|k: (Seq<char>, u32)|
                    #[trigger] quitar(k) == (k.0 == ruta@ && (todos_los_tamanos || k.1 == size)),
            decreases viejas@.len(),
        {
            let e = viejas.remove(0);
            let ghost sub = original.subrange(0, i + 1);
            assert(sub.drop_last() =~= original.subrange(0, i as int));
            assert(e == original[i as int]);
            let coincide = e.0 == *ruta && (todos_los_tamanos || e.1 == size);
            assert(coincide == quitar((e.0@, e.1)));
            if !coincide {
                nuevas.push(e);
            }
            i += 1;
            assert(viejas@ =~= original.subrange(i as int, original.len() as int));
        }
        assert(original.subrange(0, i as int) =~= original);
        self.ram = nuevas;
    }
}

// ---------------------------------------------------------------------------
// Generación de la miniatura
// ---------------------------------------------------------------------------

/// Calidad JPEG de las miniaturas (1-100).
pub const CALIDAD_JPEG: u8 = 82;

/// Lo que `image` decodifica de unos bytes (formato adivinado por su
/// contenido, orientación EXIF aplicada, convertido a RGB de 8 bits): ancho,
/// alto y píxeles; o el mensaje del error.
pub uninterp spec fn imagen_decodificada(bytes: Seq<u8>) -> Result<(u32, u32, Seq<u8>), Seq<char>>;

/// Los píxeles RGB de una imagen `ancho`×`alto` reducida a
/// `ancho_d`×`alto_d` por `fast_image_resize` (Lanczos3, opciones por omisión).
pub uninterp spec fn redimensionada(ancho: u32, alto: u32, px: Seq<u8>, ancho_d: u32, alto_d: u32) -> Seq<u8>;

/// Los bytes JPEG con que `image::codecs::jpeg::JpegEncoder` codifica una
/// imagen RGB con la calidad dada.
pub uninterp spec fn jpeg_de(ancho: u32, alto: u32, px: Seq<u8>, calidad: u8) -> Seq<u8>;

/// Decodifica una imagen con `image` (`ImageReader::with_guessed_format`,
/// `into_decoder`, `DynamicImage::from_decoder`, `apply_orientation` con la
/// orientación EXIF del decodificador, `into_rgb8`). Se afirma que el
/// resultado es función de los bytes y, como muestra `ImageBuffer`, que los
/// píxeles son tres bytes por punto.
#[verifier::external_body]
fn decodificar_imagen(bytes: &[u8]) -> (r: Result<(u32, u32, Vec<u8>), String>)
    ensures
        match imagen_decodificada(bytes@) {
            Ok((w, h, px)) => r matches Ok((a, b, v)) && a == w && b == h && v@ == px,
            Err(m) => r matches Err(t) && t@ == m,
        },
        r matches Ok((w, h, v)) ==> v@.len() == w * h * 3,
{
    let mut dec = image::ImageReader::new(std::io::Cursor::new(bytes)).with_guessed_format()
        .map_err(|e| e.to_string())?.into_decoder().map_err(|e| e.to_string())?;
    let orientacion = dec.orientation().unwrap_or(image::metadata::Orientation::NoTransforms);
    let mut imagen = image::DynamicImage::from_decoder(dec).map_err(|e| e.to_string())?;
    imagen.apply_orientation(orientacion);
    let rgb = imagen.into_rgb8();
    Ok((rgb.width(), rgb.height(), rgb.into_raw()))
}

/// Reduce una imagen RGB con `fast_image_resize` (`Image::from_vec_u8`,
/// `Image::new` del tamaño de destino, `Resizer::new().resize` con las
/// opciones por omisión). Se afirma que el resultado es función de sus
/// argumentos (las pruebas de la biblioteca comprueban el mismo resultado con
/// cada juego de instrucciones del procesador) y tiene tres bytes por punto
/// del destino; y que no falla: `from_vec_u8` solo falla con un búfer corto o
/// desalineado (no lo es uno de tres bytes por punto), y `resize` solo con
/// tipos de píxel distintos o un recorte inválido (aquí no hay recorte).
#[verifier::external_body]
fn redimensionar(ancho: u32, alto: u32, px: Vec<u8>, ancho_d: u32, alto_d: u32) -> (r: Result<Vec<u8>, String>)
    requires
        px@.len() == ancho * alto * 3,
    ensures
        r is Ok,
        r matches Ok(v) ==> v@ == redimensionada(ancho, alto, px@, ancho_d, alto_d) && v@.len()
            == ancho_d * alto_d * 3,
{
    let pt = fast_image_resize::PixelType::U8x3;
    let src = fast_image_resize::images::Image::from_vec_u8(ancho, alto, px, pt).map_err(|e| e.to_string())?;
    let mut dst = fast_image_resize::images::Image::new(ancho_d, alto_d, pt);
    fast_image_resize::Resizer::new().resize(&src, &mut dst, None).map_err(|e| e.to_string())?;
    Ok(dst.into_vec())
}

/// Codifica una imagen RGB en JPEG (`JpegEncoder::new_with_quality` y
/// `write_image`, que exige tres bytes por punto). Se afirma que los bytes
/// son función de sus argumentos, y que falla exactamente cuando un lado no
/// está entre 1 y 65535 (`encode_image` lo exige; la escritura en un `Vec`
/// no falla).
#[verifier::external_body]
fn codificar_jpeg(px: &[u8], ancho: u32, alto: u32, calidad: u8) -> (r: Result<Vec<u8>, String>)
    requires
        px@.len() == ancho * alto * 3,
    ensures
        r is Ok <==> (1 <= ancho && ancho <= 65535 && 1 <= alto && alto <= 65535),
        r matches Ok(v) ==> v@ == jpeg_de(ancho, alto, px@, calidad),
{
    let mut salida: Vec<u8> = Vec::new();
    image::codecs::jpeg::JpegEncoder::new_with_quality(&mut salida, calidad)
        .write_image(px, ancho, alto, image::ExtendedColorType::Rgb8)
        .map_err(|e| e.to_string())?;
    Ok(salida)
}

/// Los píxeles que se codifican: los originales si la imagen ya cabe; si no,
/// los reducidos al tamaño de destino.
pub open spec fn pixeles_miniatura(w: u32, h: u32, px: Seq<u8>, size: u32) -> Seq<u8> {
    let (wd, hd) = dimensiones_spec(w, h, size);
    if wd == w && hd == h {
        px
    } else {
        redimensionada(w, h, px, wd as u32, hd as u32)
    }
}

/// La miniatura JPEG de la imagen `bytes` (leída de `origen`, que solo se
/// nombra en los mensajes) cuyo lado mayor mide `size` sin ampliar:
/// - `size` 0 es inválido;
/// - si `image` no la decodifica, error de E/S con su mensaje;
/// - una imagen sin ancho o sin alto es inválida;
/// - si no, los bytes son el JPEG (calidad [`CALIDAD_JPEG`]) de los píxeles
///   de tamaño [`dimensiones_destino`]: los originales si ya cabe, los
///   reducidos si no; solo falla, con error de E/S, si un lado de destino
///   pasa de 65535, que JPEG no admite.
pub fn miniatura_jpeg(origen: &str, bytes: &[u8], size: u32) -> (r: Result<Vec<u8>, MicError>)
    ensures
        size == 0 ==> (r matches Err(e) && e@ == MicErrorSpec::Invalido(
            "el tamaño de miniatura debe ser mayor que cero"@,
        )),
        size > 0 ==> match imagen_decodificada(bytes@) {
            Err(m) => r matches Err(e) && e@ == MicErrorSpec::Io(
                "no se pudo decodificar '"@ + origen@ + "': "@ + m,
            ),
            Ok((w, h, px)) => if w == 0 || h == 0 {
                r matches Err(e) && e@ == MicErrorSpec::Invalido("imagen vacía: '"@ + origen@ + "'"@)
            } else {
                let (wd, hd) = dimensiones_spec(w, h, size);
                &&& r is Ok <==> wd <= 65535 && hd <= 65535
                &&& r matches Ok(b) ==> b@ == jpeg_de(
                    wd as u32,
                    hd as u32,
                    pixeles_miniatura(w, h, px, size),
                    CALIDAD_JPEG,
                )
                &&& r matches Err(e) ==> exists|d: Seq<char>|
                    e@ == MicErrorSpec::Io("error al codificar JPEG: "@ + d)
            },
        },
{
    proof {
        reveal_strlit("error al redimensionar: ");
        reveal_strlit("error al codificar JPEG: ");
    }
    if size == 0 {
        return Err(MicError::Invalido(String::from_str("el tamaño de miniatura debe ser mayor que cero")));
    }
    let (ancho, alto, px) = match decodificar_imagen(bytes) {
        Ok(t) => t,
        Err(m) => {
            let mut msg = concatenar3("no se pudo decodificar '", origen, "': ");
            msg.append(m.as_str());
            return Err(MicError::Io(msg));
        },
    };
    if ancho == 0 || alto == 0 {
        return Err(MicError::Invalido(concatenar3("imagen vacía: '", origen, "'")));
    }
    let (ancho_d, alto_d) = dimensiones_destino(ancho, alto, size);
    proof {
        ley_miniatura_no_amplia(ancho, alto, size);
    }
    let resultado = if ancho_d == ancho && alto_d == alto {
        codificar_jpeg(px.as_slice(), ancho, alto, CALIDAD_JPEG)
    } else {
        let reducida = match redimensionar(ancho, alto, px, ancho_d, alto_d) {
            Ok(v) => v,
            Err(m) => {
                let msg = crate::texto::concatenar("error al redimensionar: ", m.as_str());
                return Err(MicError::Io(msg));
            },
        };
        codificar_jpeg(reducida.as_slice(), ancho_d, alto_d, CALIDAD_JPEG)
    };
    match resultado {
        Ok(b) => Ok(b),
        Err(m) => Err(MicError::Io(crate::texto::concatenar("error al codificar JPEG: ", m.as_str()))),
    }
}

} // verus!
