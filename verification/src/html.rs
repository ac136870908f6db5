//! The status page: one HTML document listing the stored files and the
//! addresses (with scannable codes) under which the service is reachable.
//!
//! Rendering is exact except for the code images: what the QR renderer
//! returns is named, not restated, so the page is specified up to the
//! SVG bodies it embeds.

use vstd::prelude::*;
use vstd::string::StringExecFns;
use crate::format::age_label_of;
use crate::format::format_file_size;
use crate::format::format_timestamp;
use crate::format::get_file_icon;
use crate::format::icon_of;
use crate::format::size_label_of;
use crate::records::views_of;
use crate::records::FileInfo;
use crate::records::FileInfoView;
use crate::strutil::dec_of;
use crate::strutil::u64_to_string;

verus! {

/// What `qrcode_generator` renders for a piece of text: an SVG document,
/// a function of the text alone.
pub uninterp spec fn qr_svg_of(text: Seq<char>) -> Seq<char>;

/// Relies on qrcode_generator's `Encoder` and `Renderer`: encodes the
/// text as a Model 2 QR symbol at medium error correction and renders it
/// as a 200-pixel SVG document.  The rendering is deterministic, so a
/// successful call returns the SVG named `qr_svg_of`; the call fails only
/// when the text does not fit a symbol.
#[verifier::external_body]
fn qr_svg_call(url: &str) -> (r: Option<String>)
    ensures
        r is Some ==> r->0@ == qr_svg_of(url@),
{
    let encoder = qrcode_generator::qr::Encoder::new(qrcode_generator::qr::ErrorCorrection::Medium);
    match encoder.encode_text(url) {
        Ok(symbol) => {
            match qrcode_generator::Renderer::new(&symbol, 200).to_svg_string(None::<&str>) {
                Ok(svg) => Some(svg),
                Err(_) => None,
            }
        },
        Err(_) => None,
    }
}

/// The placeholder shown when a code image cannot be produced.
pub open spec fn qr_fallback() -> Seq<char> {
    "<div class=\"qr-missing\">QR code unavailable</div>"@
}

/// Turns one QR rendering outcome into page content: the SVG itself, or
/// the placeholder when the renderer declined the text.
pub fn qr_svg_or_fallback(outcome: Option<String>) -> (r: String)
    ensures
        outcome is Some ==> r == outcome->0,
        outcome is None ==> r@ == qr_fallback(),
{
    match outcome {
        Option::Some(svg) => svg,
        Option::None => String::from_str("<div class=\"qr-missing\">QR code unavailable</div>"),
    }
}

/// Renders the code image for one URL: its SVG, or the placeholder.
pub fn generate_qr_code_svg(url: &str) -> (r: String)
    ensures
        r@ == qr_svg_of(url@) || r@ == qr_fallback(),
{
    qr_svg_or_fallback(qr_svg_call(url))
}

/// The URL under which the service answers on one host.
pub open spec fn url_of(host: Seq<char>, port: u16) -> Seq<char> {
    "http://"@ + host + ":"@ + dec_of(port as nat)
}

/// Builds the service URL for one host.
pub fn build_url(host: &str, port: u16) -> (r: String)
    ensures
        r@ == url_of(host@, port),
{
    let mut r = String::from_str("http://");
    r.append(host);
    r.append(":");
    let p = u64_to_string(port as u64);
    r.append(p.as_str());
    proof {
        assert(r@ =~= url_of(host@, port));
    }
    r
}

/// The card shown for one stored file.
pub open spec fn file_card_of(f: FileInfoView, now: u64) -> Seq<char> {
    "<div class=\"file-card\"><div class=\"file-icon\">"@ + icon_of(f.file_type)
        + "</div><div class=\"file-name\">"@ + f.name + "</div><div class=\"file-info\">"@
        + size_label_of(f.size) + " | "@ + age_label_of(now, f.uploaded_at)
        + "</div><div class=\"file-actions\"><button onclick=\"downloadFile('"@ + f.name
        + "')\">Download</button><button onclick=\"deleteFile('"@ + f.name
        + "')\">Delete</button></div></div>"@
}

fn render_file_card(f: &FileInfo, now: u64) -> (r: String)
    ensures
        r@ == file_card_of(f@, now),
{
    let mut r = String::from_str("<div class=\"file-card\"><div class=\"file-icon\">");
    r.append(get_file_icon(f.file_type.as_str()));
    r.append("</div><div class=\"file-name\">");
    r.append(f.name.as_str());
    r.append("</div><div class=\"file-info\">");
    let sz = format_file_size(f.size);
    r.append(sz.as_str());
    r.append(" | ");
    let age = format_timestamp(now, f.uploaded_at);
    r.append(age.as_str());
    r.append("</div><div class=\"file-actions\"><button onclick=\"downloadFile('");
    r.append(f.name.as_str());
    r.append("')\">Download</button><button onclick=\"deleteFile('");
    r.append(f.name.as_str());
    r.append("')\">Delete</button></div></div>");
    proof {
        assert(r@ =~= file_card_of(f@, now));
    }
    r
}

/// The cards of the first `i` records, in listing order.
pub open spec fn cards_of(files: Seq<FileInfoView>, now: u64, i: int) -> Seq<char>
    decreases i,
{
    if i <= 0 {
        Seq::<char>::empty()
    } else {
        cards_of(files, now, i - 1) + file_card_of(files[i - 1], now)
    }
}

/// The listing section: an empty-state note, or one card per file.
pub open spec fn files_section_of(files: Seq<FileInfoView>, now: u64) -> Seq<char> {
    if files.len() == 0 {
        "<p class=\"empty\">No files shared yet.</p>"@
    } else {
        "<div class=\"files-grid\">"@ + cards_of(files, now, files.len() as int) + "</div>"@
    }
}

fn render_files_section(files: &Vec<FileInfo>, now: u64) -> (r: String)
    ensures
        r@ == files_section_of(views_of(files@), now),
{
    let ghost fv = views_of(files@);
    if files.len() == 0 {
        return String::from_str("<p class=\"empty\">No files shared yet.</p>");
    }
    let mut r = String::from_str("<div class=\"files-grid\">");
    let mut i: usize = 0;
    while i < files.len()
        invariant
            fv == views_of(files@),
            0 <= i <= files@.len(),
            r@ == "<div class=\"files-grid\">"@ + cards_of(fv, now, i as int),
        decreases files@.len() - i,
    {
        let card = render_file_card(&files[i], now);
        r.append(card.as_str());
        i += 1;
    }
    r.append("</div>");
    proof {
        assert(r@ =~= files_section_of(fv, now));
    }
    r
}

/// The address list entry for one host.
pub open spec fn ip_item_of(host: Seq<char>, port: u16) -> Seq<char> {
    "<li><strong>"@ + url_of(host, port) + "</strong></li>"@
}

/// The address list entries of the first `i` interface addresses.
pub open spec fn ip_items_of(ips: Seq<Seq<char>>, port: u16, i: int) -> Seq<char>
    decreases i,
{
    if i <= 0 {
        Seq::<char>::empty()
    } else {
        ip_items_of(ips, port, i - 1) + ip_item_of(ips[i - 1], port)
    }
}

/// The card holding one code image.
pub open spec fn qr_card_of(title: Seq<char>, svg: Seq<char>, url: Seq<char>) -> Seq<char> {
    "<div class=\"qr-card\"><h3>"@ + title + "</h3><div class=\"qr-code\">"@ + svg
        + "</div><div class=\"qr-url\">"@ + url + "</div></div>"@
}

/// The code cards: the localhost card, then one per interface address.
pub open spec fn qr_cards_of(
    ips: Seq<Seq<char>>,
    port: u16,
    svgs: Seq<Seq<char>>,
    i: int,
) -> Seq<char>
    decreases i,
{
    if i <= 0 {
        qr_card_of("Localhost"@, svgs[0], url_of("localhost"@, port))
    } else {
        qr_cards_of(ips, port, svgs, i - 1) + qr_card_of(
            "Local network"@,
            svgs[i],
            url_of(ips[i - 1], port),
        )
    }
}

/// Each code image is the QR rendering of its URL, or the placeholder.
pub open spec fn valid_qr_svgs(svgs: Seq<Seq<char>>, ips: Seq<Seq<char>>, port: u16) -> bool {
    &&& svgs.len() == ips.len() + 1
    &&& (svgs[0] == qr_svg_of(url_of("localhost"@, port)) || svgs[0] == qr_fallback())
    &&& forall|k: int|
        0 <= k < ips.len() ==> (#[trigger] svgs[k + 1] == qr_svg_of(url_of(ips[k], port)) || svgs[
            k + 1
        ] == qr_fallback())
}

/// The whole page, given the code images that were rendered.
pub open spec fn page_of(
    ips: Seq<Seq<char>>,
    port: u16,
    refresh_interval: u32,
    files: Seq<FileInfoView>,
    max_file_size: usize,
    now: u64,
    svgs: Seq<Seq<char>>,
) -> Seq<char> {
    "<!DOCTYPE html><html><head><meta charset=\"utf-8\"><title>File Share</title></head><body><h1>File Share</h1><form action=\"/upload\" method=\"post\" enctype=\"multipart/form-data\"><input type=\"file\" name=\"file\" multiple></form><p>Max upload size: "@
        + dec_of((max_file_size / 1048576) as nat) + " MB</p><h2>Available files ("@ + dec_of(
        files.len(),
    ) + ")</h2>"@ + files_section_of(files, now) + "<h3>Access addresses</h3><ul>"@ + ip_items_of(
        ips,
        port,
        ips.len() as int,
    ) + ip_item_of("localhost"@, port) + "</ul><h2>Access codes</h2><div class=\"qr-grid\">"@
        + qr_cards_of(ips, port, svgs, ips.len() as int)
        + "</div><script>setTimeout(function(){location.reload();}, "@ + dec_of(
        refresh_interval as nat,
    ) + ");</script></body></html>"@
}

/// Renders the status page for the given addresses, records and
/// configuration, at time `now`.  The result is the page over some set of
/// code images, each of which is the QR rendering of its URL or the
/// placeholder.
#[verifier::rlimit(60)]
pub fn generate_html(
    local_ips: &Vec<String>,
    port: u16,
    refresh_interval: u32,
    files: &Vec<FileInfo>,
    max_file_size: usize,
    now: u64,
) -> (r: String)
    ensures
        exists|svgs: Seq<Seq<char>>|
            #[trigger] valid_qr_svgs(svgs, local_ips.deep_view(), port) && r@ == page_of(
                local_ips.deep_view(),
                port,
                refresh_interval,
                views_of(files@),
                max_file_size,
                now,
                svgs,
            ),
{
    let ghost ips = local_ips.deep_view();
    let localhost_url = build_url("localhost", port);
    let mut svgs: Vec<String> = Vec::new();
    let first = generate_qr_code_svg(localhost_url.as_str());
    svgs.push(first);
    let mut i: usize = 0;
    while i < local_ips.len()
        invariant
            ips == local_ips.deep_view(),
            ips.len() == local_ips@.len(),
            0 <= i <= ips.len(),
            svgs@.len() == i + 1,
            svgs.deep_view()[0] == qr_svg_of(url_of("localhost"@, port)) || svgs.deep_view()[0]
                == qr_fallback(),
            forall|k: int|
                0 <= k < i ==> (#[trigger] svgs.deep_view()[k + 1] == qr_svg_of(
                    url_of(ips[k], port),
                ) || svgs.deep_view()[k + 1] == qr_fallback()),
        decreases ips.len() - i,
    {
        let url = build_url(local_ips[i].as_str(), port);
        let svg = generate_qr_code_svg(url.as_str());
        let ghost pre_dv = svgs.deep_view();
        let ghost sv = svg@;
        svgs.push(svg);
        proof {
            assert(svgs.deep_view() =~= pre_dv.push(sv));
            assert(ips[i as int] == local_ips@[i as int]@);
        }
        i += 1;
    }
    let ghost w = svgs.deep_view();
    proof {
        assert(valid_qr_svgs(w, ips, port));
    }
    let mut r = String::from_str(
        "<!DOCTYPE html><html><head><meta charset=\"utf-8\"><title>File Share</title></head><body><h1>File Share</h1><form action=\"/upload\" method=\"post\" enctype=\"multipart/form-data\"><input type=\"file\" name=\"file\" multiple></form><p>Max upload size: ",
    );
    let mb = u64_to_string((max_file_size / 1048576) as u64);
    r.append(mb.as_str());
    r.append(" MB</p><h2>Available files (");
    let count = u64_to_string(files.len() as u64);
    r.append(count.as_str());
    r.append(")</h2>");
    let listing = render_files_section(files, now);
    r.append(listing.as_str());
    r.append("<h3>Access addresses</h3><ul>");
    let ghost before_items = r@;
    let mut j: usize = 0;
    while j < local_ips.len()
        invariant
            ips == local_ips.deep_view(),
            ips.len() == local_ips@.len(),
            0 <= j <= ips.len(),
            r@ == before_items + ip_items_of(ips, port, j as int),
        decreases ips.len() - j,
    {
        r.append("<li><strong>");
        let url = build_url(local_ips[j].as_str(), port);
        r.append(url.as_str());
        r.append("</strong></li>");
        proof {
            assert(r@ =~= before_items + ip_items_of(ips, port, j + 1));
        }
        j += 1;
    }
    r.append("<li><strong>");
    r.append(localhost_url.as_str());
    r.append("</strong></li>");
    r.append("</ul><h2>Access codes</h2><div class=\"qr-grid\">");
    r.append("<div class=\"qr-card\"><h3>");
    r.append("Localhost");
    r.append("</h3><div class=\"qr-code\">");
    r.append(svgs[0].as_str());
    r.append("</div><div class=\"qr-url\">");
    r.append(localhost_url.as_str());
    r.append("</div></div>");
    let ghost before_cards = r@;
    proof {
        assert(w[0] == svgs@[0]@);
        assert(before_cards =~= before_items + ip_items_of(ips, port, ips.len() as int)
            + ip_item_of("localhost"@, port)
            + "</ul><h2>Access codes</h2><div class=\"qr-grid\">"@ + qr_cards_of(
            ips,
            port,
            w,
            0,
        ));
    }
    let mut k: usize = 0;
    while k < local_ips.len()
        invariant
            ips == local_ips.deep_view(),
            ips.len() == local_ips@.len(),
            w == svgs.deep_view(),
            svgs@.len() == ips.len() + 1,
            0 <= k <= ips.len(),
            r@ == before_items + ip_items_of(ips, port, ips.len() as int) + ip_item_of(
                "localhost"@,
                port,
            ) + "</ul><h2>Access codes</h2><div class=\"qr-grid\">"@ + qr_cards_of(
                ips,
                port,
                w,
                k as int,
            ),
        decreases ips.len() - k,
    {
        let ghost pre = r@;
        r.append("<div class=\"qr-card\"><h3>");
        r.append("Local network");
        r.append("</h3><div class=\"qr-code\">");
        r.append(svgs[k + 1].as_str());
        r.append("</div><div class=\"qr-url\">");
        let url = build_url(local_ips[k].as_str(), port);
        r.append(url.as_str());
        r.append("</div></div>");
        proof {
            assert(w[k + 1] == svgs@[k + 1]@);
            assert(ips[k as int] == local_ips@[k as int]@);
            assert(r@ =~= pre + qr_card_of("Local network"@, w[k + 1], url_of(ips[k as int], port)));
            assert(r@ =~= before_items + ip_items_of(ips, port, ips.len() as int) + ip_item_of(
                "localhost"@,
                port,
            ) + "</ul><h2>Access codes</h2><div class=\"qr-grid\">"@ + qr_cards_of(
                ips,
                port,
                w,
                k + 1,
            ));
        }
        k += 1;
    }
    r.append("</div><script>setTimeout(function(){location.reload();}, ");
    let refresh = u64_to_string(refresh_interval as u64);
    r.append(refresh.as_str());
    r.append(");</script></body></html>");
    proof {
        assert(r@ =~= page_of(
            ips,
            port,
            refresh_interval,
            views_of(files@),
            max_file_size,
            now,
            w,
        ));
    }
    r
}

} // verus!
