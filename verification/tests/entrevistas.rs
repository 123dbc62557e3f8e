use desdemovil::entrevistas::{
    alta_entrevista, amplio_en_markdown, audio_admitido, audio_no_vacio, cambios_edicion,
    carpeta_audio, condiciones_entrevistas, desplazar_tiempos, dir_audio, duracion_de,
    entrega_audio, extension, fin_de_subida, inicio_transcripcion, leer_marca,
    nota_de_entrevista, puede_borrar_audio, puede_resumir, rango, reloj,
    servicio_de_transcripcion, tipo_de, titulo_tras_resumen, trae_textos, tras_trozo,
    trozo_inicial, ultimas_lineas, CamposEntrevista, EdicionEntrevista, Entrevista,
    FiltroEntrevistas, Paso,
};
use desdemovil::llm::{Amplio, Tarea};
use desdemovil::notas::ProyectoRef;

#[test]
fn desplaza_las_marcas_de_tiempo_al_trozo() {
    let t = "[00:05] Entrevistador: Hola.\n\n[01:10] Marta: Buenas.\nsin marca";
    assert_eq!(
        desplazar_tiempos(t, 600),
        "[10:05] Entrevistador: Hola.\n[11:10] Marta: Buenas.\nsin marca"
    );
}

#[test]
fn pasada_la_hora_lleva_horas() {
    assert_eq!(desplazar_tiempos("[04:59] A: x", 3360), "[1:00:59] A: x");
    assert_eq!(desplazar_tiempos("[1:00:00] A: x", 0), "[1:00:00] A: x");
}

#[test]
fn extension_por_nombre_o_por_tipo() {
    assert_eq!(extension(Some("grabacion.M4A"), None), Some("m4a"));
    assert_eq!(
        extension(Some("blob"), Some("audio/webm;codecs=opus")),
        Some("webm")
    );
    assert_eq!(extension(None, Some("audio/mpeg")), Some("mp3"));
    assert_eq!(extension(Some("x.pdf"), Some("application/pdf")), None);
}

#[test]
fn rangos() {
    assert!(rango(None, 100).is_none());
    assert_eq!(rango(Some("bytes=0-9"), 100), Some(Ok((0, 9))));
    assert_eq!(rango(Some("bytes=90-"), 100), Some(Ok((90, 99))));
    assert_eq!(rango(Some("bytes=-10"), 100), Some(Ok((90, 99))));
    assert_eq!(rango(Some("bytes=0-500"), 100), Some(Ok((0, 99))));
    assert_eq!(rango(Some("bytes=200-300"), 100), Some(Err(())));
}

#[test]
fn el_amplio_dice_lo_que_falta() {
    let md = amplio_en_markdown(&Amplio {
        participantes: vec!["Marta, compras".into()],
        temas: vec![],
        puntos_clave: vec![],
        acuerdos: vec!["Entrega el 10".into()],
        tareas: vec![Tarea {
            quien: "Marta".into(),
            que: "Confirmar transporte".into(),
        }],
        frases: vec!["«Si llega el 10, es vuestro»".into()],
    });
    assert!(md.starts_with("## Participantes\n\n- Marta, compras"));
    assert!(md.contains("## Temas tratados\n\n_Nada en la conversación._"));
    assert!(md.contains("- **Marta**: Confirmar transporte"));
    assert!(md.contains("> «Si llega el 10, es vuestro»"));
}

#[test]
fn los_elementos_en_blanco_no_son_material() {
    let con_blancos = Amplio {
        participantes: vec!["  ".into(), "Marta".into()],
        temas: vec!["".into(), " \t ".into()],
        puntos_clave: vec!["\n".into()],
        acuerdos: vec![],
        tareas: vec![Tarea { quien: "Ana".into(), que: "  ".into() }],
        frases: vec![" ".into(), "«»".into()],
    };
    let limpio = Amplio {
        participantes: vec!["Marta".into()],
        temas: vec![],
        puntos_clave: vec![],
        acuerdos: vec![],
        tareas: vec![],
        frases: vec!["«»".into()],
    };
    let md = amplio_en_markdown(&con_blancos);
    assert_eq!(md, amplio_en_markdown(&limpio));
    assert!(md.starts_with("## Participantes\n\n- Marta\n\n## Temas tratados\n\n_Nada en la conversación._"));
    assert!(md.contains("## Puntos clave\n\n_Nada en la conversación._"));
    assert!(md.contains("## Frases literales relevantes\n\n_Nada en la conversación._"));
    assert!(!md.contains("- \n"));
    assert!(!md.contains("«»"));
}

#[test]
fn el_reloj_pasa_a_horas_en_la_hora_justa() {
    assert_eq!(reloj(0), "00:00");
    assert_eq!(reloj(59), "00:59");
    assert_eq!(reloj(3599), "59:59");
    assert_eq!(reloj(3600), "1:00:00");
    assert_eq!(reloj(36_061), "10:01:01");
}

#[test]
fn la_marca_se_lee_tras_los_blancos() {
    assert_eq!(leer_marca("  [01:02] A: x"), Some((62, " A: x".to_string())));
    assert_eq!(leer_marca("[1:00:00]"), Some((3600, String::new())));
    assert_eq!(leer_marca("[ 1 : 2 ] x"), Some((62, " x".to_string())));
    assert_eq!(leer_marca("[1:2:3:4] x"), None);
    assert_eq!(leer_marca("[12] x"), None);
    assert_eq!(leer_marca("sin marca"), None);
    assert_eq!(leer_marca("[aa:bb] x"), None);
}

#[test]
fn lineas_en_blanco_fuera_y_sin_marca_sin_blancos_al_final() {
    assert_eq!(desplazar_tiempos("hola   \n   \n[00:01]x", 1), "hola\n[00:02]x");
    assert_eq!(desplazar_tiempos("", 5), "");
}

#[test]
fn la_marca_escrita_se_vuelve_a_leer() {
    for s in [0u64, 59, 61, 3599, 3600, 3661, 86_399, 360_000] {
        let linea = format!("[{}] Marta: hola", reloj(s));
        assert_eq!(leer_marca(&linea), Some((s, " Marta: hola".to_string())));
    }
}

#[test]
fn desplazar_dos_veces_es_desplazar_la_suma() {
    let linea = "[00:05] Entrevistador: Hola.";
    let dos_veces = desplazar_tiempos(&desplazar_tiempos(linea, 1795), 1900);
    assert_eq!(dos_veces, desplazar_tiempos(linea, 3695));
    assert_eq!(dos_veces, "[1:01:40] Entrevistador: Hola.");
    let texto = "  [00:05] A: hola  \n\n   \nsin marca   \n[59:50] B: adiós\n[1:00:00]";
    let por_partes = desplazar_tiempos(&desplazar_tiempos(texto, 7), 300);
    assert_eq!(por_partes, desplazar_tiempos(texto, 307));
    assert_eq!(
        por_partes,
        "[05:12] A: hola  \nsin marca\n[1:04:57] B: adiós\n[1:05:07]"
    );
}

#[test]
fn los_blancos_unicode_tambien_se_recortan() {
    assert_eq!(
        leer_marca("\u{3000}\u{a0}[01:02]\u{2003}x"),
        Some((62, "\u{2003}x".to_string()))
    );
    assert_eq!(leer_marca("[\u{2009}1\u{2009}:\u{a0}2] x"), Some((62, " x".to_string())));
    assert_eq!(desplazar_tiempos("hola\u{3000}\u{85}", 1), "hola");
    assert_eq!(leer_marca("\u{200b}[01:02] x"), None);
}

#[test]
fn la_cola_son_las_ultimas_lineas_con_contenido() {
    assert_eq!(ultimas_lineas("a\n\nb\nc\n  \nd", 2), "c\nd");
    assert_eq!(ultimas_lineas("a\nb", 20), "a\nb");
    assert_eq!(ultimas_lineas("a\nb", 0), "");
}

#[test]
fn rangos_que_no_se_entienden_o_no_se_sirven() {
    assert_eq!(rango(Some("items=0-9"), 100), None);
    assert_eq!(rango(Some("bytes=0-1,3-4"), 100), None);
    assert_eq!(rango(Some("bytes=abc"), 100), None);
    assert_eq!(rango(Some("bytes=-0"), 100), Some(Err(())));
    assert_eq!(rango(Some("bytes=-10"), 0), Some(Err(())));
    assert_eq!(rango(Some("bytes=9-3"), 100), Some(Err(())));
    assert_eq!(rango(Some("bytes= 5 - 7 "), 100), Some(Ok((5, 7))));
    assert_eq!(rango(Some("bytes=-500"), 100), Some(Ok((0, 99))));
}

#[test]
fn tipo_por_extension() {
    assert_eq!(tipo_de("mp3"), "audio/mpeg");
    assert_eq!(tipo_de("opus"), "audio/ogg");
    assert_eq!(tipo_de("mp4"), "audio/mp4");
    assert_eq!(tipo_de("exe"), "application/octet-stream");
}

#[test]
fn el_amplio_sin_nada_lo_dice_en_cada_seccion_y_cita_sin_comillas_dobles() {
    let md = amplio_en_markdown(&Amplio {
        participantes: vec!["  ".into()],
        temas: vec![],
        puntos_clave: vec![],
        acuerdos: vec![],
        tareas: vec![
            Tarea { quien: "".into(), que: "Llamar".into() },
            Tarea { quien: "Ana".into(), que: "   ".into() },
        ],
        frases: vec!["\"Vale\"".into()],
    });
    assert!(md.starts_with("## Participantes\n\n_Nada en la conversación._\n\n## Temas tratados\n\n_Nada en la conversación._\n\n"));
    assert!(md.contains("## Tareas pendientes\n\n- Llamar\n\n"));
    assert!(md.ends_with("## Frases literales relevantes\n\n> «Vale»"));
}

#[test]
fn el_audio_va_junto_a_la_base() {
    assert_eq!(dir_audio("/data/notas.db"), "/data/audio");
    assert_eq!(dir_audio("/var/lib/app/datos.db"), "/var/lib/app/audio");
    assert_eq!(dir_audio("datos/sub.dir/notas.db"), "datos/sub.dir/audio");
    assert_eq!(dir_audio("./notas.db"), "./audio");
    assert_eq!(dir_audio("../otra/notas.db"), "../otra/audio");
    assert_eq!(dir_audio("notas.db"), "./audio");
    assert_eq!(dir_audio("datos.sqlite"), "./audio");
    assert_eq!(dir_audio(""), "./audio");
    assert_eq!(carpeta_audio(Some("/data/")), "/data/audio");
    assert_eq!(carpeta_audio(Some("")), "./audio");
    assert_eq!(carpeta_audio(None), "./audio");
}

#[test]
fn la_lista_trae_textos_solo_con_uno() {
    let f = |t: Option<&str>| FiltroEntrevistas {
        proyecto: None,
        solo: None,
        textos: t.map(String::from),
    };
    assert!(trae_textos(&f(Some("1"))));
    assert!(!trae_textos(&f(Some("true"))));
    assert!(!trae_textos(&f(None)));
}

#[test]
fn la_consulta_de_la_lista_filtra_por_proyecto() {
    let f = |p: Option<&str>, solo: Option<&str>| FiltroEntrevistas {
        proyecto: p.map(String::from),
        solo: solo.map(String::from),
        textos: None,
    };
    let (sql, args) = condiciones_entrevistas(&f(None, None));
    assert_eq!(sql, " WHERE 1=1 ORDER BY e.creada_en DESC LIMIT 500");
    assert!(args.is_empty());
    let (sql, args) = condiciones_entrevistas(&f(Some(" p1 "), None));
    assert_eq!(
        sql,
        " WHERE 1=1 AND e.proyecto_id IN (SELECT id FROM proyectos WHERE id = ?1 OR padre_id = ?1) ORDER BY e.creada_en DESC LIMIT 500"
    );
    assert_eq!(args, vec!["p1".to_string()]);
    let (sql, _) = condiciones_entrevistas(&f(Some("p1"), Some("1")));
    assert_eq!(
        sql,
        " WHERE 1=1 AND e.proyecto_id = ?1 ORDER BY e.creada_en DESC LIMIT 500"
    );
    let (sql, args) = condiciones_entrevistas(&f(Some("ninguno"), None));
    assert_eq!(
        sql,
        " WHERE 1=1 AND e.proyecto_id IS NULL ORDER BY e.creada_en DESC LIMIT 500"
    );
    assert!(args.is_empty());
}

#[test]
fn una_subida_nueva_se_normaliza() {
    let c = CamposEntrevista {
        proyecto: None,
        con_quien: format!("  {}  ", "q".repeat(130)),
        duracion_s: -4,
        titulo: Some("   ".into()),
    };
    let a = alta_entrevista(&c, "m4a");
    assert_eq!(a.titulo, None);
    assert_eq!(a.con_quien, "q".repeat(120));
    assert_eq!(a.duracion_s, 0);
    assert_eq!(a.audio_tipo, "audio/mp4");
    let c = CamposEntrevista {
        proyecto: None,
        con_quien: "Marta".into(),
        duracion_s: 95,
        titulo: Some("  Charla con Marta ".into()),
    };
    let a = alta_entrevista(&c, "webm");
    assert_eq!(a.titulo.as_deref(), Some("Charla con Marta"));
    assert_eq!(a.duracion_s, 95);
    assert_eq!(a.audio_tipo, "audio/webm");
}

#[test]
fn la_subida_rechaza_lo_que_no_es_audio() {
    let e = audio_admitido(Some("x.pdf"), Some("application/pdf")).unwrap_err();
    assert_eq!(e.estado, 415);
    assert!(e.mensaje.starts_with("formato de audio no admitido"));
    assert_eq!(audio_admitido(Some("a.ogg"), None).ok(), Some("ogg"));
    let e = audio_no_vacio(0).unwrap_err();
    assert_eq!((e.estado, e.mensaje.as_str()), (400, "el audio está vacío"));
    assert!(audio_no_vacio(10).is_ok());
    let e = fin_de_subida(None).unwrap_err();
    assert_eq!((e.estado, e.mensaje.as_str()), (400, "falta el campo audio"));
    assert_eq!(fin_de_subida(Some(("mp3", 7))).ok(), Some(("mp3", 7)));
}

fn edicion(t: Option<&str>) -> EdicionEntrevista {
    EdicionEntrevista {
        titulo: Some(format!("  {}  ", "t".repeat(130))),
        con_quien: Some("  Ana ".into()),
        transcripcion: t.map(String::from),
        resumen_ejecutivo: None,
        resumen: Some(" Largo. ".into()),
    }
}

#[test]
fn editar_mientras_se_transcribe_no_toca_la_transcripcion() {
    let e = cambios_edicion("transcribiendo", &edicion(Some("x"))).err().unwrap();
    assert_eq!(e.estado, 409);
    assert_eq!(e.mensaje, "se está transcribiendo; espera a que acabe");
    assert!(cambios_edicion("transcribiendo", &edicion(None)).is_ok());
}

#[test]
fn editar_recorta_y_una_transcripcion_con_algo_la_da_por_buena() {
    let k = cambios_edicion("fallida", &edicion(Some("  hola  "))).ok().unwrap();
    assert_eq!(k.titulo, Some("t".repeat(120)));
    assert_eq!(k.con_quien.as_deref(), Some("Ana"));
    assert_eq!(k.transcripcion.as_deref(), Some("hola"));
    assert!(k.transcrita);
    assert_eq!(k.resumen_ejecutivo, None);
    assert_eq!(k.resumen.as_deref(), Some("Largo."));
    let k = cambios_edicion("fallida", &edicion(Some("   "))).ok().unwrap();
    assert_eq!(k.transcripcion.as_deref(), Some(""));
    assert!(!k.transcrita);
}

#[test]
fn el_audio_solo_se_borra_con_la_transcripcion_hecha() {
    assert!(puede_borrar_audio("transcrita").is_ok());
    let e = puede_borrar_audio("fallida").unwrap_err();
    assert_eq!(e.estado, 409);
}

#[test]
fn el_audio_se_entrega_entero_o_a_trozos() {
    let e = entrega_audio(None, 100).ok().unwrap();
    assert!(!e.parcial);
    assert_eq!((e.ini, e.fin, e.largo), (0, 99, 100));
    assert!(e.rango.is_none());
    let e = entrega_audio(Some("bytes=0-9"), 100).ok().unwrap();
    assert!(e.parcial);
    assert_eq!((e.ini, e.fin, e.largo), (0, 9, 10));
    assert_eq!(e.rango.as_deref(), Some("bytes 0-9/100"));
    assert_eq!(entrega_audio(Some("bytes=200-300"), 100).err(), Some("bytes */100".to_string()));
    let e = entrega_audio(None, 0).ok().unwrap();
    assert_eq!((e.ini, e.fin, e.largo), (0, 0, 0));
}

#[test]
fn transcribir_pide_ia_ffmpeg_audio_y_no_estar_ya() {
    let e = servicio_de_transcripcion(false, false).unwrap_err();
    assert_eq!((e.estado, e.mensaje.as_str()), (503, "no hay IA configurada"));
    let e = servicio_de_transcripcion(true, false).unwrap_err();
    assert_eq!((e.estado, e.mensaje.as_str()), (503, "falta ffmpeg en el servidor"));
    assert!(servicio_de_transcripcion(true, true).is_ok());
    let e = inicio_transcripcion(false, "transcrita").unwrap_err();
    assert_eq!((e.estado, e.mensaje.as_str()), (409, "el audio de esta entrevista se borró"));
    let e = inicio_transcripcion(true, "transcribiendo").unwrap_err();
    assert_eq!((e.estado, e.mensaje.as_str()), (409, "ya se está transcribiendo"));
    assert_eq!(inicio_transcripcion(true, "fallida").ok(), Some(false));
    assert_eq!(inicio_transcripcion(true, "transcrita").ok(), Some(true));
}

#[test]
fn se_sigue_desde_el_primer_trozo_que_falta() {
    assert_eq!(trozo_inicial(5, 3), Ok(3));
    assert_eq!(trozo_inicial(-1, 3), Ok(0));
    assert_eq!(trozo_inicial(2, 3), Ok(2));
    assert_eq!(
        trozo_inicial(0, 0),
        Err("el audio no tiene nada que transcribir".to_string())
    );
}

#[test]
fn cada_trozo_se_guarda_se_reintenta_o_falla() {
    match tras_trozo(2, 4, 0, Ok("[00:05] A: hola".into())) {
        Paso::Guardar(t) => assert_eq!(t, "[10:05] A: hola"),
        _ => panic!("se esperaba guardar"),
    }
    assert!(matches!(tras_trozo(2, 4, 0, Err("x".into())), Paso::Esperar(5)));
    assert!(matches!(tras_trozo(2, 4, 1, Err("x".into())), Paso::Esperar(15)));
    match tras_trozo(2, 4, 2, Err("boom".into())) {
        Paso::Fallar(m) => assert_eq!(m, "trozo 3 de 4: boom"),
        _ => panic!("se esperaba fallar"),
    }
}

#[test]
fn resumir_pide_la_transcripcion() {
    let e = puede_resumir("fallida", Some("texto"), "").unwrap_err();
    assert_eq!((e.estado, e.mensaje.as_str()), (409, "primero hay que transcribirla"));
    let e = puede_resumir("transcrita", Some("  "), "").unwrap_err();
    assert_eq!(e.mensaje, "primero hay que transcribirla");
    let e = puede_resumir("transcrita", Some("x"), "pendiente").unwrap_err();
    assert_eq!((e.estado, e.mensaje.as_str()), (409, "ya se está resumiendo"));
    assert!(puede_resumir("transcrita", Some("x"), "listo").is_ok());
}

#[test]
fn duracion_y_titulo_tras_el_resumen() {
    assert_eq!(duracion_de(-3), "00:00");
    assert_eq!(duracion_de(3725), "1:02:05");
    assert_eq!(titulo_tras_resumen("Viejo", false, "Nuevo"), "Nuevo");
    assert_eq!(titulo_tras_resumen("Viejo", true, "Nuevo"), "Viejo");
    assert_eq!(titulo_tras_resumen("Viejo", false, ""), "Viejo");
}

fn entrevista(ejecutivo: Option<&str>, amplio: Option<&str>, con_quien: &str) -> Entrevista {
    Entrevista {
        id: "e1".into(),
        titulo: "Charla".into(),
        con_quien: con_quien.into(),
        creada_en: "2026-09-24T10:00:00.000Z".into(),
        duracion_s: 300,
        audio: true,
        audio_bytes: 10,
        audio_tipo: "audio/webm".into(),
        estado: "transcrita".into(),
        trozos_total: 1,
        trozos_hechos: 1,
        error: String::new(),
        estado_resumen: "listo".into(),
        error_resumen: String::new(),
        proyecto: Some(ProyectoRef { id: "p1".into(), nombre: "Club".into(), padre: None }),
        transcripcion: Some("[00:01] A: hola".into()),
        resumen_ejecutivo: ejecutivo.map(String::from),
        resumen: amplio.map(String::from),
    }
}

#[test]
fn el_resumen_se_guarda_como_nota_firmada() {
    let e = entrevista(Some(" Resumen. "), Some("## Amplio"), " Marta ");
    let n = nota_de_entrevista(&e, None).ok().unwrap();
    assert_eq!(n.titulo, "Charla");
    assert_eq!(
        n.contenido,
        "Resumen.\n\n_Entrevista «Charla» · 2026-09-24 10:00 UTC · 05:00 · con Marta_"
    );
    assert_eq!(n.proyecto.as_deref(), Some("p1"));
    let n = nota_de_entrevista(&e, Some("ambos")).ok().unwrap();
    assert!(n.contenido.starts_with("Resumen. \n\n## Amplio\n\n_Entrevista"));
    let n = nota_de_entrevista(&entrevista(Some("R"), None, ""), Some("ejecutivo")).ok().unwrap();
    assert!(n.contenido.ends_with("· 05:00_"));
}

#[test]
fn guardar_como_nota_pide_un_resumen_que_exista() {
    let e = entrevista(Some("R"), None, "");
    let x = nota_de_entrevista(&e, Some("otro")).err().unwrap();
    assert_eq!((x.estado, x.mensaje.as_str()), (400, "cual: ejecutivo, amplio o ambos"));
    let x = nota_de_entrevista(&e, Some("amplio")).err().unwrap();
    assert_eq!((x.estado, x.mensaje.as_str()), (409, "la entrevista aún no tiene ese resumen"));
}
