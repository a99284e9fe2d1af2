//! `nexa add nginx`: a real `deploy/nginx.conf` to serve `dist/`. Files
//! whose name carries a content hash (`<name>.<8 hex>.js|css`) are cached
//! as immutable for a year; anything else under `/assets/` briefly. The
//! dynamic routes without `paths` that the project really has are listed,
//! with a commented proxy block whose prefix is derived from the first of
//! them, never guessed.
use vstd::prelude::*;

use crate::activation::join_lines;
use crate::text::{chars_of, ends_with_seq, owned, push_char, replace_seq, replace_str};

verus! {

pub const TEMPLATE: &'static str = "# Generado por `nexa add nginx` — revisá y ajustá `server_name` y `root`\n# antes de usarlo en producción. Pensado para el `dist/` que produce\n# `nexa build`: HTML/CSS/JS estáticos + lo que `[pwa]` (Fase 18) haya\n# generado (manifest.webmanifest, sw.js) + imágenes AVIF (Fase 19).\nserver {\n    listen 80;\n    listen [::]:80;\n    server_name _;                      # <- poné tu dominio real acá\n    root /var/www/{{NAME}}/dist;\n    index index.html;\n\n    # `text/html` no va en la lista: nginx ya lo comprime siempre que\n    # `gzip on` está activo — declararlo de nuevo en `gzip_types` es un\n    # error real de sintaxis, no cosmético (`nginx -t` lo marca como\n    # \"duplicate MIME type\" — encontrado validando este archivo con un\n    # nginx real).\n    gzip on;\n    gzip_min_length 512;\n    gzip_types text/css application/javascript text/javascript application/json\n               image/svg+xml application/manifest+json application/xml;\n\n    # Cabeceras de seguridad — las mismas que ya aplica `nexa preview`/\n    # `nexa dev` en desarrollo, para que el comportamiento sea consistente.\n    add_header X-Content-Type-Options \"nosniff\" always;\n    add_header X-Frame-Options \"SAMEORIGIN\" always;\n    add_header Referrer-Policy \"strict-origin-when-cross-origin\" always;\n\n    # Los archivos con hash de contenido en el nombre (nexa-runtime.<hash>.js,\n    # chunks de activación, nexa-ui.<hash>.css — ver el comentario del módulo\n    # que genera este archivo) pueden cachearse \"immutable\" por un año: si el\n    # contenido cambia, el nombre cambia con él.\n    location ~* \"^/assets/.+\\.[0-9a-f]{8}\\.(js|css)$\" {\n        add_header Cache-Control \"public, max-age=31536000, immutable\";\n    }\n\n    # Cualquier otro archivo bajo /assets/ (ej. algo copiado a mano desde\n    # public/assets/) no lleva ese hash — cacheo corto, no \"immutable\".\n    location /assets/ {\n        add_header Cache-Control \"public, max-age=3600\";\n    }\n\n    location / {\n        try_files $uri $uri/ $uri/index.html =404;\n    }\n";

pub const NO_DYNAMIC_ROUTES: &'static str = "\n    # No se encontraron rutas dinámicas sin `paths` en este proyecto —\n    # no hace falta nada de lo que sigue. Si más adelante agregás una\n    # (`src/pages/algo/[slug].tsx` sin `export const paths`), volvé a correr\n    # `nexa add nginx` (o agregá el bloque a mano) para que quede cubierta.\n";

pub const DYNAMIC_ROUTES_HEADER: &'static str = "\n    # Rutas dinámicas SIN `paths` declarado, detectadas en este proyecto —\n    # `try_files` de la regla `location /` de arriba nunca las va a encontrar\n    # como archivo (Fase 17). Necesitás un `nexa preview` corriendo detrás y\n    # reenviarle exactamente estas rutas. Descomentá y ajustá el prefijo si no\n    # coincide con tu propia estructura (ej. un proyecto con `[locale]` como\n    # primer segmento no tiene un prefijo fijo posible acá):\n    #\n";

pub const PROXY_BLOCK_HEAD: &'static str = "    # location ";

pub const PROXY_BLOCK_TAIL: &'static str = " {\n    #     try_files $uri $uri/index.html @nexa_preview;\n    # }\n    # location @nexa_preview {\n    #     proxy_pass http://127.0.0.1:4321;\n    #     proxy_set_header Host $host;\n    # }\n";

pub const NO_FIXED_PREFIX: &'static str = "/CAMBIAR-ESTE-PREFIJO/";

/// The position where the first dynamic segment (`:param`) of a route
/// pattern starts.
pub open spec fn param_start(pattern: Seq<char>) -> Option<int> {
    if exists|q: int| is_param_at(pattern, q) {
        Some(choose|q: int| is_param_at(pattern, q) && forall|r: int| 0 <= r < q ==> !is_param_at(pattern, r))
    } else {
        None
    }
}

/// A segment starting with `:` begins at `q`.
pub open spec fn is_param_at(pattern: Seq<char>, q: int) -> bool {
    0 <= q < pattern.len() && pattern[q] == ':' && (q == 0 || pattern[q - 1] == '/')
}

/// The fixed segments before the first dynamic one, joined by `/`.
pub open spec fn fixed_part(pattern: Seq<char>) -> Seq<char> {
    match param_start(pattern) {
        None => pattern,
        Some(q) => if q == 0 {
            Seq::empty()
        } else {
            pattern.take(q - 1)
        },
    }
}

/// The fixed prefix of a route pattern (`/products/:slug` gives
/// `/products/`), ending with a slash; a pattern without a fixed segment
/// (`/:locale/...`) gets an explicit placeholder instead of a guess.
pub open spec fn route_prefix_of(pattern: Seq<char>) -> Seq<char> {
    let p = fixed_part(pattern);
    if p.len() == 0 || p == seq!['/'] {
        NO_FIXED_PREFIX@
    } else if ends_with_seq(p, seq!['/']) {
        p
    } else {
        p.push('/')
    }
}

/// The fixed prefix of a route pattern.
pub fn route_prefix(pattern: &str) -> (r: String)
    ensures
        r@ == route_prefix_of(pattern@),
{
    let cs = chars_of(pattern);
    let n = cs.len();
    let mut q: usize = 0;
    while q < n && !(cs[q] == ':' && (q == 0 || cs[q - 1] == '/'))
        invariant
            n == cs@.len(),
            cs@ == pattern@,
            q <= n,
            forall|r: int| 0 <= r < q ==> !is_param_at(pattern@, r),
        decreases n - q,
    {
        q = q + 1;
    }
    proof {
        if q < n {
            assert(is_param_at(pattern@, q as int));
            let c = param_start(pattern@)->Some_0;
            assert(c == q) by {
                if c > q {
                    assert(is_param_at(pattern@, q as int));
                }
            }
        } else {
            assert(!exists|r: int| is_param_at(pattern@, r));
        }
    }
    let fixed_end: usize = if q == n {
        n
    } else if q == 0 {
        0
    } else {
        q - 1
    };
    let fixed = crate::text::string_of_range(&cs, 0, fixed_end);
    assert(fixed@ =~= fixed_part(pattern@));
    proof {
        reveal_strlit("/");
    }
    if fixed_end == 0 || crate::text::str_eq(fixed.as_str(), "/") {
        assert("/"@ =~= seq!['/']);
        return owned(NO_FIXED_PREFIX);
    }
    assert("/"@ =~= seq!['/']);
    if crate::text::ends_with_str(fixed.as_str(), "/") {
        fixed
    } else {
        let mut r = fixed;
        push_char(&mut r, '/');
        r
    }
}

/// The section that lists the dynamic routes without `paths`.
pub open spec fn dynamic_routes_text(patterns: Seq<Seq<char>>) -> Seq<char> {
    if patterns.len() == 0 {
        NO_DYNAMIC_ROUTES@
    } else {
        DYNAMIC_ROUTES_HEADER@ + pattern_lines(patterns) + "    #\n"@ + PROXY_BLOCK_HEAD@
            + route_prefix_of(patterns[0]) + PROXY_BLOCK_TAIL@
    }
}

/// One commented line per pattern.
pub open spec fn pattern_lines(patterns: Seq<Seq<char>>) -> Seq<char>
    decreases patterns.len(),
{
    if patterns.len() == 0 {
        Seq::empty()
    } else {
        pattern_lines(patterns.drop_last()) + "    #   "@ + patterns.last() + "\n"@
    }
}

pub open spec fn texts(v: Seq<String>) -> Seq<Seq<char>> {
    v.map_values(|s: String| s@)
}

/// The section of the configuration about dynamic routes without
/// `paths`.
pub fn dynamic_routes_section(patterns: &[String]) -> (r: String)
    ensures
        r@ == dynamic_routes_text(texts(patterns@)),
{
    if patterns.len() == 0 {
        return owned(NO_DYNAMIC_ROUTES);
    }
    let mut out = owned(DYNAMIC_ROUTES_HEADER);
    let ghost head = out@;
    let mut i: usize = 0;
    while i < patterns.len()
        invariant
            i <= patterns@.len(),
            out@ == head + pattern_lines(texts(patterns@).take(i as int)),
        decreases patterns@.len() - i,
    {
        out.append("    #   ");
        out.append(patterns[i].as_str());
        out.append("\n");
        proof {
            let t = texts(patterns@).take(i + 1);
            assert(t.drop_last() =~= texts(patterns@).take(i as int));
            assert(t.last() == patterns@[i as int]@);
        }
        i = i + 1;
    }
    assert(texts(patterns@).take(i as int) =~= texts(patterns@));
    out.append("    #\n");
    out.append(PROXY_BLOCK_HEAD);
    out.append(route_prefix(patterns[0].as_str()).as_str());
    out.append(PROXY_BLOCK_TAIL);
    out
}

/// A character a server name keeps: ASCII letters and digits, `-`, `_`.
pub open spec fn name_char(c: char) -> char {
    if ('a' <= c && c <= 'z') || ('A' <= c && c <= 'Z') || ('0' <= c && c <= '9') || c == '-'
        || c == '_' {
        c
    } else {
        '-'
    }
}

/// The project name as it goes into the root path: any other character
/// becomes `-`, and an empty name becomes `app`.
pub open spec fn sanitized_name(name: Seq<char>) -> Seq<char> {
    if name.len() == 0 {
        "app"@
    } else {
        name.map_values(|c: char| name_char(c))
    }
}

/// The project name as it goes into the root path.
pub fn sanitize_name(name: &str) -> (r: String)
    ensures
        r@ == sanitized_name(name@),
{
    let cs = chars_of(name);
    if cs.len() == 0 {
        return owned("app");
    }
    let mut r = String::new();
    let mut i: usize = 0;
    while i < cs.len()
        invariant
            cs@ == name@,
            i <= cs@.len(),
            r@ == name@.take(i as int).map_values(|c: char| name_char(c)),
        decreases cs@.len() - i,
    {
        let c = cs[i];
        let k = if ('a' <= c && c <= 'z') || ('A' <= c && c <= 'Z') || ('0' <= c && c <= '9')
            || c == '-' || c == '_' {
            c
        } else {
            '-'
        };
        push_char(&mut r, k);
        assert(name@.take(i + 1).map_values(|c: char| name_char(c)) =~= name@.take(
            i as int,
        ).map_values(|c: char| name_char(c)).push(name_char(c)));
        i = i + 1;
    }
    assert(name@.take(i as int) =~= name@);
    r
}

/// The whole configuration file.
pub open spec fn nginx_conf(project_name: Seq<char>, patterns: Seq<Seq<char>>) -> Seq<char> {
    replace_seq(TEMPLATE@, "{{NAME}}"@, sanitized_name(project_name)) + dynamic_routes_text(
        patterns,
    ) + "}\n"@
}

/// `deploy/nginx.conf` for the project, listing its dynamic routes
/// without `paths`.
pub fn render(project_name: &str, dynamic_patterns: &[String]) -> (r: String)
    ensures
        r@ == nginx_conf(project_name@, texts(dynamic_patterns@)),
{
    proof {
        reveal_strlit("{{NAME}}");
    }
    let mut out = replace_str(TEMPLATE, "{{NAME}}", sanitize_name(project_name).as_str());
    out.append(dynamic_routes_section(dynamic_patterns).as_str());
    out.append("}\n");
    out
}

} // verus!
