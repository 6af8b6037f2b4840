use vstd::prelude::*;

use crate::decimal::{decimal, u32_to_decimal};
use crate::params::{
    get_subdomain, key_value_iter_to_param_str, pairs_view, param_str, subdomain_index, ParamView,
};
use crate::template::{pairs_to_map, render_template, rendered_template};
use crate::tile_key::TileKey;
use crate::url_text::{url_parses, url_with_query, url_with_query_text};

verus! {

/// Web Map Tile Service (WMTS) imagery provider: the plain settings from which
/// the tile request URLs are built. The provider's tiling scheme and
/// rectangle, which hold floating-point geometry, are kept by the caller.
pub struct WMTSImageryProvider {
    pub name: &'static str,
    /// URL template of the service; `{s}` stands for a subdomain.
    pub url: &'static str,
    pub layer: &'static str,
    pub style: &'static str,
    pub format: &'static str,
    pub tile_matrix_set_id: &'static str,
    pub minimum_level: u32,
    pub maximum_level: u32,
    pub tile_width: u32,
    pub tile_height: u32,
    /// Names of the tile matrices, one per level; by default the level number.
    pub tile_matrix_labels: Option<Vec<String>>,
    pub subdomains: Option<Vec<&'static str>>,
    /// Extra query parameters appended after the standard ones.
    pub params: Option<Vec<(&'static str, &'static str)>>,
}

/// The values substituted into the URL template: `s`, the tile's subdomain,
/// where subdomains are configured.
pub open spec fn wmts_template_values(p: WMTSImageryProvider, key: TileKey) -> Seq<ParamView> {
    match p.subdomains {
        Some(v) => seq![("s"@, v@[subdomain_index(key, v.len() as nat)]@)],
        None => seq![],
    }
}

/// The tile matrix of a level: its label where labels are configured, else the
/// level in decimal.
pub open spec fn wmts_tile_matrix(p: WMTSImageryProvider, level: u32) -> Seq<char> {
    match p.tile_matrix_labels {
        Some(l) => l@[level as int]@,
        None => decimal(level as nat),
    }
}

/// The query parameters of a `GetTile` request for `key`, in order, followed
/// by the provider's extra parameters.
pub open spec fn wmts_query(p: WMTSImageryProvider, key: TileKey) -> Seq<ParamView> {
    seq![
        ("service"@, "wmts"@),
        ("request"@, "GetTile"@),
        ("version"@, "1.0.0"@),
        ("tilematrix"@, wmts_tile_matrix(p, key.level)),
        ("layer"@, p.layer@),
        ("style"@, p.style@),
        ("tilerow"@, decimal(key.y as nat)),
        ("tilecol"@, decimal(key.x as nat)),
        ("tilematrixset"@, p.tile_matrix_set_id@),
        ("format"@, p.format@),
    ] + match p.params {
        Some(v) => pairs_view(v@),
        None => seq![],
    }
}

/// The URL template rendered with the tile's template values.
pub open spec fn wmts_base_url(p: WMTSImageryProvider, key: TileKey) -> Option<Seq<char>> {
    rendered_template(p.url@, pairs_to_map(wmts_template_values(p, key)))
}

/// The request URL of a tile: the rendered template with its query replaced by
/// the `GetTile` parameters, or `None` where the template cannot be rendered.
pub open spec fn wmts_url(p: WMTSImageryProvider, key: TileKey) -> Option<Seq<char>> {
    match wmts_base_url(p, key) {
        Some(base) => Some(url_with_query_text(base, param_str(wmts_query(p, key)))),
        None => None,
    }
}

/// The inputs on which building a URL cannot fail on its own arguments: the
/// subdomain index and the tile matrix label exist.
pub open spec fn wmts_key_ok(p: WMTSImageryProvider, key: TileKey) -> bool {
    &&& (p.subdomains matches Some(v) ==> v.len() > 0 && key.y + key.x + key.level <= u32::MAX)
    &&& (p.tile_matrix_labels matches Some(l) ==> key.level < l.len())
}

impl WMTSImageryProvider {
    pub fn get_maximum_level(&self) -> (r: u32)
        ensures
            r == self.maximum_level,
    {
        self.maximum_level
    }

    pub fn get_minimum_level(&self) -> (r: u32)
        ensures
            r == self.minimum_level,
    {
        self.minimum_level
    }

    /// A WMTS provider is always ready.
    pub fn get_ready(&self) -> (r: bool)
        ensures
            r,
    {
        true
    }

    pub fn get_tile_width(&self) -> (r: u32)
        ensures
            r == self.tile_width,
    {
        self.tile_width
    }

    pub fn get_tile_height(&self) -> (r: u32)
        ensures
            r == self.tile_height,
    {
        self.tile_height
    }

    /// The values substituted into the URL template for tile `key`.
    pub fn template_values(&self, key: &TileKey) -> (r: Vec<(&'static str, &'static str)>)
        requires
            wmts_key_ok(*self, *key),
        ensures
            pairs_view(r@) == wmts_template_values(*self, *key),
    {
        let mut args: Vec<(&'static str, &'static str)> = Vec::new();
        if let Some(subdomains) = self.subdomains.as_ref() {
            let subdomain = get_subdomain(subdomains, key);
            args.push(("s", subdomain));
        }
        proof {
            assert(pairs_view(args@) =~= wmts_template_values(*self, *key));
        }
        args
    }

    /// The query string of the `GetTile` request for tile `key`.
    pub fn query_string(&self, key: &TileKey) -> (r: String)
        requires
            wmts_key_ok(*self, *key),
        ensures
            r@ == param_str(wmts_query(*self, *key)),
    {
        let tile_matrix = match &self.tile_matrix_labels {
            Some(real_labels) => real_labels[key.level as usize].clone(),
            None => u32_to_decimal(key.level),
        };
        let tilerow = u32_to_decimal(key.y);
        let tilecol = u32_to_decimal(key.x);
        let mut args: Vec<(&str, &str)> = Vec::new();
        args.push(("service", "wmts"));
        args.push(("request", "GetTile"));
        args.push(("version", "1.0.0"));
        args.push(("tilematrix", tile_matrix.as_str()));
        args.push(("layer", self.layer));
        args.push(("style", self.style));
        args.push(("tilerow", tilerow.as_str()));
        args.push(("tilecol", tilecol.as_str()));
        args.push(("tilematrixset", self.tile_matrix_set_id));
        args.push(("format", self.format));
        let ghost fixed = pairs_view(args@);
        if let Some(params) = self.params.as_ref() {
            let mut i: usize = 0;
            while i < params.len()
                invariant
                    i <= params.len(),
                    pairs_view(args@) == fixed + pairs_view(params@).take(i as int),
                decreases params.len() - i,
            {
                let ghost old_args = args@;
                args.push(params[i]);
                proof {
                    assert(args@ =~= old_args.push(params@[i as int]));
                    assert(pairs_view(args@) =~= pairs_view(old_args).push(pairs_view(params@)[i as int]));
                    assert(pairs_view(params@).take(i + 1) =~= pairs_view(params@).take(i as int).push(pairs_view(params@)[i as int]));
                    assert(pairs_view(args@) =~= fixed + pairs_view(params@).take(i + 1));
                }
                i = i + 1;
            }
            proof {
                assert(pairs_view(params@).take(params.len() as int) =~= pairs_view(params@));
            }
        }
        proof {
            assert(pairs_view(args@) =~= wmts_query(*self, *key));
        }
        key_value_iter_to_param_str(&args)
    }

    /// The request URL of tile `key`, given the rendered URL template `base`:
    /// `base` with its query replaced by the `GetTile` parameters; `None`
    /// where `base` is no absolute URL.
    pub fn url_from_base(&self, key: &TileKey, base: &str) -> (r: Option<String>)
        requires
            wmts_key_ok(*self, *key),
        ensures
            r is Some <==> url_parses(base@),
            r matches Some(u) ==> u@ == url_with_query_text(base@, param_str(wmts_query(*self, *key))),
    {
        let params_str = self.query_string(key);
        url_with_query(base, params_str.as_str())
    }

    /// The request URL of tile `key`: the URL template rendered with the
    /// tile's subdomain, with its query replaced by the `GetTile` parameters;
    /// `None` where the template cannot be rendered.
    pub fn build_url(&self, key: &TileKey) -> (r: Option<String>)
        requires
            wmts_key_ok(*self, *key),
            wmts_base_url(*self, *key) matches Some(base) ==> url_parses(base),
        ensures
            r is Some <==> wmts_url(*self, *key) is Some,
            r matches Some(u) ==> wmts_url(*self, *key) == Some(u@),
            !self.url@.contains('{') ==> wmts_base_url(*self, *key) == Some(self.url@),
    {
        let args = self.template_values(key);
        match render_template(self.url, &args) {
            Some(url_with_domain) => self.url_from_base(key, url_with_domain.as_str()),
            None => None,
        }
    }

    /// `build_url` where it cannot fail, or `None` where it would: where a
    /// subdomain or tile matrix label is missing, the subdomain index
    /// overflows, or the rendered template is not a valid URL.
    pub fn checked_build_url(&self, key: &TileKey) -> (r: Option<Option<String>>)
        ensures
            r is Some <==> (wmts_key_ok(*self, *key)
                && (wmts_base_url(*self, *key) matches Some(base) ==> url_parses(base))),
            r matches Some(inner) ==> (inner is Some <==> wmts_url(*self, *key) is Some),
            r matches Some(inner) ==> (inner matches Some(u) ==> wmts_url(*self, *key) == Some(u@)),
    {
        if let Some(subdomains) = self.subdomains.as_ref() {
            if subdomains.len() == 0 {
                return None;
            }
            if key.y as u64 + key.x as u64 + key.level as u64 > u32::MAX as u64 {
                return None;
            }
        }
        if let Some(labels) = self.tile_matrix_labels.as_ref() {
            if key.level as usize >= labels.len() {
                return None;
            }
        }
        let args = self.template_values(key);
        match render_template(self.url, &args) {
            Some(url_with_domain) => {
                match self.url_from_base(key, url_with_domain.as_str()) {
                    Some(_) => Some(self.build_url(key)),
                    None => None,
                }
            },
            None => Some(None),
        }
    }
}


/// A `GetTile` query is ten standard parameters followed by every one of the
/// provider's extra parameters, each kept as given and in the given order; the
/// standard ones carry the tile matrix of the tile's level, the tile's row and
/// column, and the provider's layer, style, tile matrix set and format.
pub proof fn lemma_wmts_query_parameters(p: WMTSImageryProvider, key: TileKey)
    ensures
        wmts_query(p, key).len() == 10 + (match p.params {
            Some(v) => v@.len() as int,
            None => 0int,
        }),
        p.params matches Some(v) ==> forall|i: int| 0 <= i < v@.len() ==>
            #[trigger] wmts_query(p, key)[10 + i] == (v@[i].0@, v@[i].1@),
        wmts_query(p, key)[3] == ("tilematrix"@, wmts_tile_matrix(p, key.level)),
        wmts_query(p, key)[4] == ("layer"@, p.layer@),
        wmts_query(p, key)[5] == ("style"@, p.style@),
        wmts_query(p, key)[6] == ("tilerow"@, decimal(key.y as nat)),
        wmts_query(p, key)[7] == ("tilecol"@, decimal(key.x as nat)),
        wmts_query(p, key)[8] == ("tilematrixset"@, p.tile_matrix_set_id@),
        wmts_query(p, key)[9] == ("format"@, p.format@),
{
    if let Some(v) = p.params {
        assert forall|i: int| 0 <= i < v@.len() implies
            #[trigger] wmts_query(p, key)[10 + i] == (v@[i].0@, v@[i].1@) by {
            assert(pairs_view(v@)[i] == (v@[i].0@, v@[i].1@));
        }
    }
}

} // verus!
