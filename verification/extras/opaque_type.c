/* Opaque sertypes for Cyclone DDS: the ops tables, which forward to the
 * functions that app/opaque.rs exports. */
#include <stdbool.h>
#include <stddef.h>
#include <stdint.h>
#include <stdlib.h>
#include <string.h>

#include "dds/dds.h"
#include "dds/ddsi/ddsi_radmin.h"
#include "dds/ddsi/ddsi_serdata.h"
#include "dds/ddsi/ddsi_sertype.h"

struct opaque_sertype { struct ddsi_sertype base; void *handle; };
struct opaque_serdata { struct ddsi_serdata base; void *handle; };
struct raw_sample { const uint8_t *data; size_t len; const uint8_t *key_data; size_t key_len; };
struct io_vec { const uint8_t *base; size_t len; };

extern void bridge_type_free (void *type);
extern bool bridge_type_equal (const void *a, const void *b);
extern uint32_t bridge_type_hash (const void *type);
extern void *bridge_sample_from_ser (const uint8_t *data, size_t len);
extern void *bridge_sample_from_iov (const struct io_vec *iov, size_t count, size_t size);
extern void *bridge_sample_from_keyhash (const uint8_t *hash);
extern void *bridge_sample_from_sample (const struct raw_sample *sample);
extern void bridge_sample_free (void *sample);
extern bool bridge_sample_eqkey (const void *a, const void *b, const void *type);
extern uint32_t bridge_sample_size (const void *sample);
extern uint32_t bridge_sample_hash (const void *sample, const void *type);
extern void bridge_sample_keyhash (const void *sample, const void *type, bool force_md5, uint8_t *hash);
extern void bridge_sample_to_ser (const void *sample, size_t offset, size_t len, uint8_t *buf);
extern const uint8_t *bridge_sample_bytes (const void *sample, size_t offset, size_t len);
extern void bridge_sample_to_sample (const void *sample, struct raw_sample *out);
extern void bridge_raw_sample_free (struct raw_sample *sample);

static void *type_of (const struct ddsi_sertype *st) { return ((const struct opaque_sertype *) st)->handle; }
static void *sample_of (const struct ddsi_serdata *sd) { return ((const struct opaque_serdata *) sd)->handle; }

static struct ddsi_serdata *wrap (const struct ddsi_sertype *st, enum ddsi_serdata_kind kind, void *sample)
{
  struct opaque_serdata *sd = calloc (1, sizeof (*sd));
  ddsi_serdata_init (&sd->base, st, kind);
  sd->handle = sample;
  sd->base.hash = bridge_sample_hash (sample, type_of (st));
  return &sd->base;
}

static bool sd_eqkey (const struct ddsi_serdata *a, const struct ddsi_serdata *b)
{
  return bridge_sample_eqkey (sample_of (a), sample_of (b), type_of (a->type));
}

static uint32_t sd_size (const struct ddsi_serdata *sd) { return bridge_sample_size (sample_of (sd)); }

static void sd_free (struct ddsi_serdata *sd)
{
  bridge_sample_free (sample_of (sd));
  free (sd);
}

static struct ddsi_serdata *sd_from_ser (const struct ddsi_sertype *st, enum ddsi_serdata_kind kind, const struct ddsi_rdata *frag, size_t size)
{
  uint8_t *buf = calloc (size ? size : 1, 1);
  uint32_t off = 0;
  for (; frag != NULL; frag = frag->nextfrag)
  {
    if (frag->maxp1 > off)
    {
      const uint8_t *payload = DDSI_RMSG_PAYLOADOFF (frag->rmsg, DDSI_RDATA_PAYLOAD_OFF (frag));
      size_t n = frag->maxp1 - off;
      if (n > size - off)
        n = size - off;
      memcpy (buf + off, payload + off - frag->min, n);
      off += (uint32_t) n;
    }
  }
  struct ddsi_serdata *sd = wrap (st, kind, bridge_sample_from_ser (buf, size));
  free (buf);
  return sd;
}

static struct ddsi_serdata *sd_from_ser_iov (const struct ddsi_sertype *st, enum ddsi_serdata_kind kind, ddsrt_msg_iovlen_t niov, const ddsrt_iovec_t *iov, size_t size)
{
  struct io_vec *parts = calloc (niov ? (size_t) niov : 1, sizeof (*parts));
  for (size_t i = 0; i < (size_t) niov; i++)
  {
    parts[i].base = iov[i].iov_base;
    parts[i].len = iov[i].iov_len;
  }
  struct ddsi_serdata *sd = wrap (st, kind, bridge_sample_from_iov (parts, (size_t) niov, size));
  free (parts);
  return sd;
}

static struct ddsi_serdata *sd_from_keyhash (const struct ddsi_sertype *st, const struct ddsi_keyhash *kh)
{
  return wrap (st, SDK_KEY, bridge_sample_from_keyhash (kh->value));
}

static struct ddsi_serdata *sd_from_sample (const struct ddsi_sertype *st, enum ddsi_serdata_kind kind, const void *sample)
{
  return wrap (st, kind, bridge_sample_from_sample (sample));
}

static void sd_to_ser (const struct ddsi_serdata *sd, size_t off, size_t sz, void *buf)
{
  bridge_sample_to_ser (sample_of (sd), off, sz, buf);
}

static struct ddsi_serdata *sd_to_ser_ref (const struct ddsi_serdata *sd, size_t off, size_t sz, ddsrt_iovec_t *ref)
{
  const uint8_t *bytes = bridge_sample_bytes (sample_of (sd), off, sz);
  /* A range that the sample does not hold is sent as zeros. */
  ref->iov_base = bytes ? (void *) bytes : calloc (sz ? sz : 1, 1);
  ref->iov_len = (ddsrt_iov_len_t) sz;
  return ddsi_serdata_ref (sd);
}

static void sd_to_ser_unref (struct ddsi_serdata *sd, const ddsrt_iovec_t *ref)
{
  (void) ref;
  ddsi_serdata_unref (sd);
}

static bool sd_to_sample (const struct ddsi_serdata *sd, void *sample, void **bufptr, void *buflim)
{
  (void) bufptr; (void) buflim;
  bridge_sample_to_sample (sample_of (sd), sample);
  return true;
}

static struct ddsi_serdata *sd_to_untyped (const struct ddsi_serdata *sd) { return ddsi_serdata_ref (sd); }

static bool sd_untyped_to_sample (const struct ddsi_sertype *st, const struct ddsi_serdata *sd, void *sample, void **bufptr, void *buflim)
{
  (void) st;
  return sd_to_sample (sd, sample, bufptr, buflim);
}

static void sd_get_keyhash (const struct ddsi_serdata *sd, struct ddsi_keyhash *buf, bool force_md5)
{
  bridge_sample_keyhash (sample_of (sd), type_of (sd->type), force_md5, buf->value);
}

static const struct ddsi_serdata_ops serdata_ops = {
  .eqkey = sd_eqkey, .get_size = sd_size, .from_ser = sd_from_ser, .from_ser_iov = sd_from_ser_iov,
  .from_keyhash = sd_from_keyhash, .from_sample = sd_from_sample, .to_ser = sd_to_ser,
  .to_ser_ref = sd_to_ser_ref, .to_ser_unref = sd_to_ser_unref, .to_sample = sd_to_sample,
  .to_untyped = sd_to_untyped, .untyped_to_sample = sd_untyped_to_sample, .free = sd_free,
  .get_keyhash = sd_get_keyhash
};

static void st_free (struct ddsi_sertype *st)
{
  bridge_type_free (type_of (st));
  ddsi_sertype_fini (st);
  free (st);
}

static void st_zero_samples (const struct ddsi_sertype *st, void *samples, size_t count)
{
  (void) st; (void) samples; (void) count;
}

static void st_realloc_samples (void **ptrs, const struct ddsi_sertype *st, void *old, size_t oldcount, size_t count)
{
  (void) ptrs; (void) st; (void) old; (void) oldcount; (void) count;
}

static void st_free_samples (const struct ddsi_sertype *st, void **ptrs, size_t count, dds_free_op_t op)
{
  (void) st;
  for (size_t i = 0; i < count; i++)
  {
    if (op & DDS_FREE_CONTENTS_BIT)
      bridge_raw_sample_free (ptrs[i]);
    if (op & DDS_FREE_ALL_BIT)
      free (ptrs[i]);
  }
}

static bool st_equal (const struct ddsi_sertype *a, const struct ddsi_sertype *b)
{
  return bridge_type_equal (type_of (a), type_of (b));
}

static uint32_t st_hash (const struct ddsi_sertype *st) { return bridge_type_hash (type_of (st)); }

static const struct ddsi_sertype_ops sertype_ops = {
  .free = st_free, .zero_samples = st_zero_samples, .realloc_samples = st_realloc_samples,
  .free_samples = st_free_samples, .equal = st_equal, .hash = st_hash
};

dds_entity_t opaque_create_topic (dds_entity_t participant, const char *topic_name, const char *type_name, bool no_key, uint32_t allowed_data_representation, void *handle)
{
  struct opaque_sertype *st = calloc (1, sizeof (*st));
  ddsi_sertype_init (&st->base, type_name, &sertype_ops, &serdata_ops, no_key);
  st->base.allowed_data_representation = allowed_data_representation;
  st->handle = handle;
  struct ddsi_sertype *sertype = &st->base;
  return dds_create_topic_sertype (participant, topic_name, &sertype, NULL, NULL, NULL);
}
