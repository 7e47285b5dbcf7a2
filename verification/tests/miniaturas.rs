use mic::error::MicError;
use mic::thumbs::miniatura_jpeg;

fn png(ancho: u32, alto: u32) -> Vec<u8> {
    let img = image::RgbImage::from_pixel(ancho, alto, image::Rgb([200, 30, 30]));
    let mut salida = std::io::Cursor::new(Vec::new());
    img.write_to(&mut salida, image::ImageFormat::Png).unwrap();
    salida.into_inner()
}

fn dimensiones_jpeg(bytes: &[u8]) -> (u32, u32) {
    let img = image::load_from_memory_with_format(bytes, image::ImageFormat::Jpeg).unwrap();
    (img.width(), img.height())
}

#[test]
fn miniatura_reduce_al_lado_mayor() {
    let jpeg = miniatura_jpeg("foto.png", &png(40, 20), 10).unwrap();
    assert_eq!(&jpeg[..2], &[0xFF, 0xD8]);
    assert_eq!(dimensiones_jpeg(&jpeg), (10, 5));
}

#[test]
fn miniatura_no_amplia_una_imagen_pequena() {
    let jpeg = miniatura_jpeg("foto.png", &png(6, 9), 100).unwrap();
    assert_eq!(dimensiones_jpeg(&jpeg), (6, 9));
}

#[test]
fn miniatura_de_tamano_cero_es_invalida() {
    match miniatura_jpeg("foto.png", &png(4, 4), 0) {
        Err(MicError::Invalido(m)) => assert_eq!(m, "el tamaño de miniatura debe ser mayor que cero"),
        otro => panic!("se esperaba Invalido: {:?}", otro.map(|b| b.len())),
    }
}

#[test]
fn miniatura_de_bytes_que_no_son_imagen() {
    match miniatura_jpeg("nota.txt", b"no soy una imagen", 10) {
        Err(MicError::Io(m)) => assert!(m.starts_with("no se pudo decodificar 'nota.txt': ")),
        otro => panic!("se esperaba Io: {:?}", otro.map(|b| b.len())),
    }
}
